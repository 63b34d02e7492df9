//! The render engine: expands a template against a context.
//!
//! A template is rendered part by part around its first loop: the text before
//! the loop, the loop's body once for each item of its collection, and the
//! text after the loop. A part without a loop has its variable references
//! replaced by the values they name.
//!
//! A loop may take its collection from a function call. The engine does not
//! run functions. It is handed the results of the calls made so far, in the
//! order of the calls, and where it comes to a call beyond them it stops and
//! says which call it needs.

use vstd::prelude::*;
use vstd::slice::slice_subrange;
use crate::args::{parse_function_args, parsed_args};
use crate::context::Context;
use crate::error::concat3;
use crate::nesting::{closing_tag, find_close, lemma_closing_tag};
use crate::pattern::{
    find_open, find_var, first_open, first_var, lemma_find_open, lemma_find_var, open_at, var_at,
    LoopOpen, OpenSpan,
};
use crate::text::{chars_of, push_chars, push_str, string_of};
use crate::value::{
    clone_entries, items_of, lemma_list_of, lemma_record_push, list_of, record_of,
    resolve, resolve_in, text_of, value_to_string, Json, Tree,
};

verus! {

/// A function call that a loop takes its collection from.
#[derive(Debug, PartialEq)]
pub struct FunctionCall {
    /// The name of the function.
    pub name: String,
    /// The arguments: an association list from names to values.
    pub args: Vec<(String, Json)>,
}

/// The model of a [`FunctionCall`].
pub struct CallSpec {
    pub name: Seq<char>,
    pub args: Map<Seq<char>, Tree>,
}

impl View for FunctionCall {
    type V = CallSpec;

    open spec fn view(&self) -> CallSpec {
        CallSpec { name: self.name@, args: record_of(self.args@) }
    }
}

/// How far a render came.
#[derive(Debug, PartialEq)]
pub enum Progress {
    /// The template is rendered: the output.
    Done(String),
    /// The render failed: the message. There is no partial output.
    Failed(String),
    /// The render needs the result of this call, which is the next one after
    /// those whose results it was handed.
    Call(FunctionCall),
}

/// The model of a [`Progress`].
pub enum Outcome {
    Done(Seq<char>),
    Failed(Seq<char>),
    Call(CallSpec),
}

impl View for Progress {
    type V = Outcome;

    open spec fn view(&self) -> Outcome {
        match self {
            Progress::Done(text) => Outcome::Done(text@),
            Progress::Failed(message) => Outcome::Failed(message@),
            Progress::Call(call) => Outcome::Call(call@),
        }
    }
}

/// Why the render of a part stopped.
pub enum Stop {
    Failed(String),
    Call(FunctionCall),
}

/// The model of a [`Stop`].
pub enum Halt {
    Failed(Seq<char>),
    Call(CallSpec),
}

impl View for Stop {
    type V = Halt;

    open spec fn view(&self) -> Halt {
        match self {
            Stop::Failed(message) => Halt::Failed(message@),
            Stop::Call(call) => Halt::Call(call@),
        }
    }
}

/// The models of the results of the function calls, in the order of the calls.
pub open spec fn answers_of(answers: Seq<Result<Json, Json>>) -> Seq<Result<Tree, Tree>> {
    Seq::new(
        answers.len(),
        |i: int|
            match answers[i] {
                Ok(v) => Ok(v@),
                Err(e) => Err(e@),
            },
    )
}

/// Whether a function of this name is registered.
pub open spec fn is_registered(name: Seq<char>) -> bool {
    name == "files"@
}

/// The message for a call of a function that is not registered.
pub open spec fn unknown_function_message(name: Seq<char>) -> Seq<char> {
    "Unknown function '"@ + name + "'"@
}

/// The message for a call that failed, or whose arguments are in error.
pub open spec fn function_error_message(name: Seq<char>, detail: Seq<char>) -> Seq<char> {
    "Error in function '"@ + name + "': "@ + detail
}

/// The message for a loop that no tag closes.
pub open spec fn unclosed_loop_message(item: Seq<char>) -> Seq<char> {
    "Loop over '"@ + item + "' is not closed: no endfor matches its foreach"@
}

/// The text that a variable reference to `path` is replaced by: the text of
/// the value at the path, and nothing where the path leads nowhere.
pub open spec fn variable_text(ctx: Map<Seq<char>, Tree>, path: Seq<char>) -> Seq<char> {
    match resolve(Tree::Record(ctx), path) {
        Some(v) => text_of(v),
        None => Seq::empty(),
    }
}

/// The text of `s` from `from` on with each variable reference replaced by
/// the text of the value it names.
pub open spec fn substituted(s: Seq<char>, ctx: Map<Seq<char>, Tree>, from: int) -> Seq<char>
    decreases s.len() - from,
{
    match find_var(s, from) {
        Some(v) => if from <= v.start < v.end <= s.len() {
            s.subrange(from, v.start) + variable_text(ctx, v.path) + substituted(s, ctx, v.end)
        } else {
            s.subrange(from, s.len() as int)
        },
        None => s.subrange(from, s.len() as int),
    }
}

/// The items that the loop opened by `open` runs over, and the number of call
/// results used up after it.
///
/// A loop over a path runs over the value at the path, and over nothing where
/// the path leads nowhere. A loop over a function call runs over the result
/// of the call, which is the next unused one of `answers`; it fails where the
/// function is not registered, where the arguments are in error and where the
/// result is an error, and it stops with the call where no result is left.
pub open spec fn collection(
    open: OpenSpan,
    ctx: Map<Seq<char>, Tree>,
    answers: Seq<Result<Tree, Tree>>,
    used: int,
) -> Result<(Seq<Tree>, int), Halt> {
    match open.args {
        None => Ok(
            (
                match resolve(Tree::Record(ctx), open.source) {
                    Some(v) => items_of(v),
                    None => Seq::empty(),
                },
                used,
            ),
        ),
        Some(args) => if !is_registered(open.source) {
            Err(Halt::Failed(unknown_function_message(open.source)))
        } else {
            match parsed_args(args, Tree::Record(ctx)) {
                Err(m) => Err(Halt::Failed(function_error_message(open.source, m))),
                Ok(map) => if !(0 <= used < answers.len()) {
                    Err(Halt::Call(CallSpec { name: open.source, args: map }))
                } else {
                    match answers[used] {
                        Ok(v) => Ok((items_of(v), used + 1)),
                        Err(e) => Err(
                            Halt::Failed(function_error_message(open.source, text_of(e))),
                        ),
                    }
                },
            }
        },
    }
}

/// The render of `s` in the context `ctx`, and the number of call results
/// used up after it, where `used` were used up before it.
///
/// A text without a loop is rendered by replacing its variable references. A
/// text with a loop is split at its first loop-open tag and the tag that
/// closes that loop: the render is the render of the text before the loop,
/// then the renders of the body, once for each item of the loop's collection
/// with the item bound to the loop's name, then the render of the text after
/// the loop. The first part that stops stops the whole render.
pub open spec fn rendered(
    s: Seq<char>,
    ctx: Map<Seq<char>, Tree>,
    answers: Seq<Result<Tree, Tree>>,
    used: int,
) -> Result<(Seq<char>, int), Halt>
    decreases s.len(), 0nat, 0nat,
{
    match find_open(s, 0) {
        None => Ok((substituted(s, ctx, 0), used)),
        Some(open) => {
            let rest = s.subrange(open.end, s.len() as int);
            match closing_tag(rest) {
                Some(close) => if 0 <= open.start < open.end <= s.len() && 0 <= close.start
                    < close.end <= rest.len() {
                    let before = s.subrange(0, open.start);
                    let body = rest.subrange(0, close.start);
                    let after = rest.subrange(close.end, rest.len() as int);
                    match rendered(before, ctx, answers, used) {
                        Err(h) => Err(h),
                        Ok((head, u1)) => match collection(open, ctx, answers, u1) {
                            Err(h) => Err(h),
                            Ok((items, u2)) => match iterated(
                                body,
                                ctx,
                                open.item,
                                items,
                                0,
                                answers,
                                u2,
                            ) {
                                Err(h) => Err(h),
                                Ok((middle, u3)) => match rendered(after, ctx, answers, u3) {
                                    Err(h) => Err(h),
                                    Ok((tail, u4)) => Ok((head + middle + tail, u4)),
                                },
                            },
                        },
                    }
                } else {
                    Err(Halt::Failed(unclosed_loop_message(open.item)))
                },
                None => Err(Halt::Failed(unclosed_loop_message(open.item))),
            }
        },
    }
}

/// The renders of a loop body for the items from index `k` on, one after the
/// other, each in the context with the item bound to the loop's name.
pub open spec fn iterated(
    body: Seq<char>,
    ctx: Map<Seq<char>, Tree>,
    item: Seq<char>,
    items: Seq<Tree>,
    k: int,
    answers: Seq<Result<Tree, Tree>>,
    used: int,
) -> Result<(Seq<char>, int), Halt>
    decreases body.len(), 1nat, items.len() - k,
{
    if !(0 <= k < items.len()) {
        Ok((Seq::empty(), used))
    } else {
        match rendered(body, ctx.insert(item, items[k]), answers, used) {
            Err(h) => Err(h),
            Ok((head, u1)) => match iterated(body, ctx, item, items, k + 1, answers, u1) {
                Err(h) => Err(h),
                Ok((tail, u2)) => Ok((head + tail, u2)),
            },
        }
    }
}

/// What a render that ended as `r` reports.
pub open spec fn outcome_of(r: Result<(Seq<char>, int), Halt>) -> Outcome {
    match r {
        Ok((text, _)) => Outcome::Done(text),
        Err(Halt::Failed(message)) => Outcome::Failed(message),
        Err(Halt::Call(call)) => Outcome::Call(call),
    }
}

/// A text in which no loop-open tag stands has none from any position on.
pub proof fn lemma_no_open(s: Seq<char>, from: int)
    requires
        forall|i: int| open_at(s, i) is None,
    ensures
        find_open(s, from) is None,
    decreases s.len() - from,
{
    if 0 <= from < s.len() {
        lemma_no_open(s, from + 1);
    }
}

/// A text in which no variable reference stands has none from any position
/// on.
pub proof fn lemma_no_var(s: Seq<char>, from: int)
    requires
        forall|i: int| var_at(s, i) is None,
    ensures
        find_var(s, from) is None,
    decreases s.len() - from,
{
    if 0 <= from < s.len() {
        lemma_no_var(s, from + 1);
    }
}

/// Literal text: a template in which neither a loop-open tag nor a variable
/// reference stands renders to itself, in every context, and uses up no call
/// result.
pub proof fn lemma_literal_text_is_unchanged(
    s: Seq<char>,
    ctx: Map<Seq<char>, Tree>,
    answers: Seq<Result<Tree, Tree>>,
    used: int,
)
    requires
        forall|i: int| open_at(s, i) is None,
        forall|i: int| var_at(s, i) is None,
    ensures
        rendered(s, ctx, answers, used) == Ok::<(Seq<char>, int), Halt>((s, used)),
{
    lemma_no_open(s, 0);
    lemma_no_var(s, 0);
    assert(s.subrange(0, s.len() as int) =~= s);
}

/// A loop over a single value that is no list runs once: its render is the
/// render of the body with the value bound to the loop's name.
pub proof fn lemma_single_value_loops_once(
    body: Seq<char>,
    ctx: Map<Seq<char>, Tree>,
    item: Seq<char>,
    value: Tree,
    answers: Seq<Result<Tree, Tree>>,
    used: int,
)
    requires
        !(value is List),
    ensures
        items_of(value) == seq![value],
        iterated(body, ctx, item, items_of(value), 0, answers, used) == rendered(
            body,
            ctx.insert(item, value),
            answers,
            used,
        ),
{
    let items = seq![value];
    let once = rendered(body, ctx.insert(item, value), answers, used);
    assert(items[0] == value);
    if once is Ok {
        let text = once->Ok_0.0;
        let after = once->Ok_0.1;
        assert(iterated(body, ctx, item, items, 1, answers, after) == Ok::<(Seq<char>, int), Halt>(
            (Seq::empty(), after),
        ));
        assert(text + Seq::<char>::empty() =~= text);
    }
}

/// A loop over a call of a function that is not registered fails, whatever
/// the context and the call results are, with the message that names the
/// function.
pub proof fn lemma_unregistered_call_fails(
    open: OpenSpan,
    ctx: Map<Seq<char>, Tree>,
    answers: Seq<Result<Tree, Tree>>,
    used: int,
)
    requires
        open.args is Some,
        !is_registered(open.source),
    ensures
        collection(open, ctx, answers, used) == Err::<(Seq<Tree>, int), Halt>(
            Halt::Failed(unknown_function_message(open.source)),
        ),
{
}

/// A template whose first loop runs over a call of a function that is not
/// registered fails as a whole with the message that names the function, once
/// the text before the loop is rendered: nothing of the output is kept.
pub proof fn lemma_unregistered_function_fails_render(
    s: Seq<char>,
    ctx: Map<Seq<char>, Tree>,
    answers: Seq<Result<Tree, Tree>>,
    used: int,
)
    requires
        find_open(s, 0) is Some,
        find_open(s, 0)->0.args is Some,
        !is_registered(find_open(s, 0)->0.source),
        closing_tag(s.subrange(find_open(s, 0)->0.end, s.len() as int)) is Some,
        rendered(s.subrange(0, find_open(s, 0)->0.start), ctx, answers, used) is Ok,
    ensures
        outcome_of(rendered(s, ctx, answers, used)) == Outcome::Failed(
            unknown_function_message(find_open(s, 0)->0.source),
        ),
{
    let open = find_open(s, 0)->0;
    lemma_find_open(s, 0);
    lemma_closing_tag(s.subrange(open.end, s.len() as int));
}

/// Tests whether a function of this name is registered.
pub fn registered(name: &[char]) -> (r: bool)
    ensures
        r == is_registered(name@),
{
    let files = chars_of("files");
    let n = name.len();
    if n != files.len() {
        return false;
    }
    let mut i: usize = 0;
    while i < n
        invariant
            i <= n == name@.len() == files@.len(),
            files@ == "files"@,
            forall|j: int| 0 <= j < i ==> name@[j] == files@[j],
        decreases n - i,
    {
        if name[i] != files[i] {
            assert(name@[i as int] != files@[i as int]);
            return false;
        }
        i += 1;
    }
    assert(name@ =~= files@);
    true
}

/// Appends to `out` the text that a variable reference to `path` is replaced
/// by.
pub fn push_variable(out: &mut Vec<char>, ctx: &Vec<(String, Json)>, path: &[char])
    ensures
        final(out)@ == old(out)@ + variable_text(record_of(ctx@), path@),
{
    match resolve_in(ctx, path) {
        Some(v) => {
            let text = value_to_string(v);
            push_str(out, text.as_str());
        },
        None => {
            assert(out@ + Seq::<char>::empty() =~= out@);
        },
    }
}

/// Appends to `out` the text of `s` with each variable reference replaced by
/// the text of the value it names.
pub fn render_variables(s: &[char], ctx: &Vec<(String, Json)>, out: &mut Vec<char>)
    ensures
        final(out)@ == old(out)@ + substituted(s@, record_of(ctx@), 0),
{
    let n = s.len();
    let mut at: usize = 0;
    loop
        invariant
            n == s@.len(),
            at <= n,
            out@ + substituted(s@, record_of(ctx@), at as int) == old(out)@ + substituted(
                s@,
                record_of(ctx@),
                0,
            ),
        decreases n - at,
    {
        let ghost before = out@;
        match first_var(s, at) {
            None => {
                push_chars(out, slice_subrange(s, at, n));
                return ;
            },
            Some(v) => {
                proof {
                    lemma_find_var(s@, at as int);
                }
                push_chars(out, slice_subrange(s, at, v.start));
                push_variable(out, ctx, v.path.as_slice());
                proof {
                    let lit = s@.subrange(at as int, v.start as int);
                    let val = variable_text(record_of(ctx@), v.path@);
                    let rest = substituted(s@, record_of(ctx@), v.end as int);
                    assert(out@ == before + lit + val);
                    assert(before + lit + val + rest =~= before + (lit + val + rest));
                }
                at = v.end;
            },
        }
    }
}

/// Builds the message for a call that failed, or whose arguments are in
/// error.
pub fn function_error(name: &[char], detail: &str) -> (m: String)
    ensures
        m@ == function_error_message(name@, detail@),
{
    let mut out: Vec<char> = Vec::new();
    push_str(&mut out, "Error in function '");
    push_chars(&mut out, name);
    push_str(&mut out, "': ");
    push_str(&mut out, detail);
    string_of(out.as_slice())
}

/// The items a loop runs over for a value: those of a sequence, and any other
/// value alone.
pub fn loop_items_of(v: Json) -> (items: Vec<Json>)
    ensures
        list_of(items@) == items_of(v@),
{
    match v {
        Json::Sequence(items) => items,
        other => {
            let mut items: Vec<Json> = Vec::new();
            items.push(other);
            proof {
                lemma_list_of(items@);
                assert(list_of(items@) =~= seq![other@]);
            }
            items
        },
    }
}

/// Decides what a loop over a function call runs over, from the result of the
/// call.
pub fn call_items(name: &[char], answer: &Result<Json, Json>) -> (r: Result<Vec<Json>, Stop>)
    ensures
        match (r, *answer) {
            (Ok(items), Ok(v)) => list_of(items@) == items_of(v@),
            (Err(stop), Err(e)) => stop@ == Halt::Failed(
                function_error_message(name@, text_of(e@)),
            ),
            _ => false,
        },
{
    match answer {
        Ok(v) => Ok(loop_items_of(v.clone())),
        Err(e) => {
            let detail = value_to_string(e);
            Err(Stop::Failed(function_error(name, detail.as_str())))
        },
    }
}

/// Finds the items that a loop runs over.
pub fn collect_items(
    open: &LoopOpen,
    ctx: &Vec<(String, Json)>,
    answers: &Vec<Result<Json, Json>>,
    used: &mut usize,
) -> (r: Result<Vec<Json>, Stop>)
    requires
        *old(used) <= answers.len(),
    ensures
        *final(used) <= answers.len(),
        match collection(open@, record_of(ctx@), answers_of(answers@), *old(used) as int) {
            Ok((items, u)) => r matches Ok(found) && list_of(found@) == items && *final(used) == u,
            Err(h) => r matches Err(stop) && stop@ == h,
        },
{
    match &open.args {
        None => {
            match resolve_in(ctx, open.source.as_slice()) {
                Some(v) => Ok(loop_items_of(v.clone())),
                None => {
                    let items: Vec<Json> = Vec::new();
                    assert(list_of(items@) =~= Seq::empty());
                    Ok(items)
                },
            }
        },
        Some(args) => {
            if !registered(open.source.as_slice()) {
                return Err(
                    Stop::Failed(concat3("Unknown function '", open.source.as_slice(), "'")),
                );
            }
            match parse_function_args(args.as_slice(), ctx) {
                Err(m) => Err(Stop::Failed(function_error(open.source.as_slice(), m.as_str()))),
                Ok(map) => {
                    if *used >= answers.len() {
                        let name = string_of(open.source.as_slice());
                        return Err(Stop::Call(FunctionCall { name, args: map }));
                    }
                    let at = *used;
                    let found = call_items(open.source.as_slice(), &answers[at]);
                    if found.is_ok() {
                        *used = at + 1;
                    }
                    found
                },
            }
        },
    }
}

/// The render `r` with the text `head` put before its text.
pub open spec fn prefixed(head: Seq<char>, r: Result<(Seq<char>, int), Halt>) -> Result<
    (Seq<char>, int),
    Halt,
> {
    match r {
        Ok((text, used)) => Ok((head + text, used)),
        Err(h) => Err(h),
    }
}

/// Appends to `out` the renders of a loop body, once for each item.
pub fn render_items(
    body: &[char],
    ctx: &Vec<(String, Json)>,
    name: &String,
    items: &Vec<Json>,
    answers: &Vec<Result<Json, Json>>,
    used: &mut usize,
    out: &mut Vec<char>,
) -> (r: Result<(), Stop>)
    requires
        *old(used) <= answers.len(),
    ensures
        *final(used) <= answers.len(),
        match iterated(
            body@,
            record_of(ctx@),
            name@,
            list_of(items@),
            0,
            answers_of(answers@),
            *old(used) as int,
        ) {
            Ok((text, u)) => r is Ok && final(out)@ == old(out)@ + text && *final(used) == u,
            Err(h) => r matches Err(stop) && stop@ == h,
        },
    decreases body@.len(), 1nat,
{
    let ghost model = record_of(ctx@);
    let ghost log = answers_of(answers@);
    let ghost trees = list_of(items@);
    let ghost whole = iterated(body@, model, name@, trees, 0, log, *used as int);
    let ghost mut done: Seq<char> = Seq::empty();
    proof {
        lemma_list_of(items@);
        assert(out@ + done =~= out@);
        let first = iterated(body@, model, name@, trees, 0, log, *used as int);
        if first is Ok {
            assert(done + first->Ok_0.0 =~= first->Ok_0.0);
        }
    }
    let mut k: usize = 0;
    while k < items.len()
        invariant
            k <= items.len(),
            *used <= answers.len(),
            model == record_of(ctx@),
            log == answers_of(answers@),
            trees == list_of(items@),
            trees.len() == items.len(),
            out@ == old(out)@ + done,
            whole == iterated(body@, model, name@, trees, 0, log, *old(used) as int),
            whole == prefixed(done, iterated(body@, model, name@, trees, k as int, log, *used as int)),
        decreases items.len() - k,
    {
        let mut scope = clone_entries(ctx);
        let value = items[k].clone();
        proof {
            lemma_list_of(items@);
            lemma_record_push(scope@, (*name, value));
        }
        scope.push((name.clone(), value));
        let ghost step = rendered(body@, model.insert(name@, trees[k as int]), log, *used as int);
        match render_recursive(body, &scope, answers, used, out) {
            Err(stop) => {
                return Err(stop);
            },
            Ok(()) => {
                proof {
                    let one = step->Ok_0.0;
                    let later = iterated(body@, model, name@, trees, k + 1, log, *used as int);
                    if later is Ok {
                        assert(done + (one + later->Ok_0.0) =~= (done + one) + later->Ok_0.0);
                    }
                    assert(out@ =~= old(out)@ + (done + one));
                    done = done + one;
                }
            },
        }
        k += 1;
    }
    proof {
        assert(done + Seq::<char>::empty() =~= done);
    }
    Ok(())
}

/// Appends to `out` the render of `s` in the context `ctx`.
pub fn render_recursive(
    s: &[char],
    ctx: &Vec<(String, Json)>,
    answers: &Vec<Result<Json, Json>>,
    used: &mut usize,
    out: &mut Vec<char>,
) -> (r: Result<(), Stop>)
    requires
        *old(used) <= answers.len(),
    ensures
        *final(used) <= answers.len(),
        match rendered(s@, record_of(ctx@), answers_of(answers@), *old(used) as int) {
            Ok((text, u)) => r is Ok && final(out)@ == old(out)@ + text && *final(used) == u,
            Err(h) => r matches Err(stop) && stop@ == h,
        },
    decreases s@.len(), 0nat,
{
    let n = s.len();
    let open = match first_open(s, 0) {
        None => {
            render_variables(s, ctx, out);
            return Ok(());
        },
        Some(open) => open,
    };
    proof {
        lemma_find_open(s@, 0);
    }
    let rest = slice_subrange(s, open.end, n);
    let close = match find_close(rest) {
        None => {
            return Err(
                Stop::Failed(
                    concat3(
                        "Loop over '",
                        open.item.as_slice(),
                        "' is not closed: no endfor matches its foreach",
                    ),
                ),
            );
        },
        Some(close) => close,
    };
    proof {
        lemma_closing_tag(rest@);
    }
    let before = slice_subrange(s, 0, open.start);
    let body = slice_subrange(rest, 0, close.start);
    let after = slice_subrange(rest, close.end, rest.len());
    let ghost model = record_of(ctx@);
    let ghost log = answers_of(answers@);
    let ghost used0 = *used as int;
    match render_recursive(before, ctx, answers, used, out) {
        Err(stop) => {
            return Err(stop);
        },
        Ok(()) => {},
    }
    let ghost head = rendered(before@, model, log, used0)->Ok_0.0;
    let ghost used1 = *used as int;
    let items = match collect_items(&open, ctx, answers, used) {
        Err(stop) => {
            return Err(stop);
        },
        Ok(items) => items,
    };
    let ghost used2 = *used as int;
    let name = string_of(open.item.as_slice());
    match render_items(body, ctx, &name, &items, answers, used, out) {
        Err(stop) => {
            return Err(stop);
        },
        Ok(()) => {},
    }
    let ghost middle = iterated(body@, model, open.item@, list_of(items@), 0, log, used2)->Ok_0.0;
    let ghost used3 = *used as int;
    match render_recursive(after, ctx, answers, used, out) {
        Err(stop) => Err(stop),
        Ok(()) => {
            proof {
                let tail = rendered(after@, model, log, used3)->Ok_0.0;
                assert(old(out)@ + head + middle + tail =~= old(out)@ + (head + middle + tail));
            }
            Ok(())
        },
    }
}

/// Renders a template against a context.
///
/// `answers` holds the results of the function calls that the template makes,
/// in the order in which the render comes to them. Where the render comes to a
/// call beyond them, it reports that call; the caller runs it, adds the result
/// to `answers` and renders again.
pub fn render(template: &str, context: &Context, answers: &Vec<Result<Json, Json>>) -> (p: Progress)
    ensures
        p@ == outcome_of(rendered(template@, context@, answers_of(answers@), 0)),
{
    let chars = chars_of(template);
    let mut out: Vec<char> = Vec::new();
    let mut used: usize = 0;
    match render_recursive(chars.as_slice(), &context.0, answers, &mut used, &mut out) {
        Ok(()) => {
            assert(Seq::<char>::empty() + out@ =~= out@);
            Progress::Done(string_of(out.as_slice()))
        },
        Err(Stop::Failed(message)) => Progress::Failed(message),
        Err(Stop::Call(call)) => Progress::Call(call),
    }
}

} // verus!
