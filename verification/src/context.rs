//! The context of a render, the data tree bound to the template's root scope,
//! and how it is made from data arguments or from a JSON document.
//!
//! A data argument is `key=value`, `key@=filepath` or `key@-`. The second
//! form takes the value from a file and the third from the standard input.
//! Reading is left to the caller: [`Context::from_args`] is handed the texts
//! read so far, in the order of the arguments that need one, and where it
//! comes to an argument beyond them it says what is to be read.

use vstd::prelude::*;
use vstd::slice::slice_subrange;
use crate::error::{concat3, AppError};
use crate::json::{json_parse, parse_json};
use crate::text::{chars_of, find_char, has, scan_for, string_of, trim, trimmed};
use crate::value::{
    clone_entries, lemma_list_push, lemma_record_push, list_of, record_of, Json, Tree,
};

verus! {

/// The context of a render: an association list from names to values. For a
/// name that occurs more than once the last entry counts.
#[derive(Debug, PartialEq)]
pub struct Context(pub Vec<(String, Json)>);

impl View for Context {
    type V = Map<Seq<char>, Tree>;

    open spec fn view(&self) -> Map<Seq<char>, Tree> {
        record_of(self.0@)
    }
}

/// The form of a data argument.
#[derive(Debug, PartialEq)]
pub enum ArgForm {
    /// `key@-`: the value is read from the standard input.
    Stdin { key: String },
    /// `key@=filepath`: the value is read from a file.
    File { key: String, path: String },
    /// `key=value`: the value stands in the argument.
    Inline { key: String, value: String },
}

/// The model of an [`ArgForm`].
pub enum FormSpec {
    Stdin { key: Seq<char> },
    File { key: Seq<char>, path: Seq<char> },
    Inline { key: Seq<char>, value: Seq<char> },
}

impl View for ArgForm {
    type V = FormSpec;

    open spec fn view(&self) -> FormSpec {
        match self {
            ArgForm::Stdin { key } => FormSpec::Stdin { key: key@ },
            ArgForm::File { key, path } => FormSpec::File { key: key@, path: path@ },
            ArgForm::Inline { key, value } => FormSpec::Inline { key: key@, value: value@ },
        }
    }
}

/// What is to be read for a data argument.
#[derive(Debug, PartialEq)]
pub enum Input {
    /// The standard input.
    Stdin,
    /// The file at this path.
    File(String),
}

/// The model of an [`Input`].
pub enum InputSpec {
    Stdin,
    File(Seq<char>),
}

impl View for Input {
    type V = InputSpec;

    open spec fn view(&self) -> InputSpec {
        match self {
            Input::Stdin => InputSpec::Stdin,
            Input::File(path) => InputSpec::File(path@),
        }
    }
}

/// How far the making of a context from data arguments came.
#[derive(Debug, PartialEq)]
pub enum Loading {
    /// All arguments are bound: the context.
    Done(Context),
    /// An argument is in no valid form.
    Failed(AppError),
    /// The next argument needs this input, which is the next one after those
    /// that were handed in.
    Needs(Input),
}

/// The model of a [`Loading`].
pub enum LoadingSpec {
    Done(Map<Seq<char>, Tree>),
    Failed(Seq<char>),
    Needs(InputSpec),
}

impl View for Loading {
    type V = LoadingSpec;

    open spec fn view(&self) -> LoadingSpec {
        match self {
            Loading::Done(context) => LoadingSpec::Done(context@),
            Loading::Failed(e) => LoadingSpec::Failed(e.message()),
            Loading::Needs(input) => LoadingSpec::Needs(input@),
        }
    }
}

/// The byte order mark.
pub open spec fn bom() -> char {
    '\u{feff}'
}

/// The text of `s` from `from` on with each carriage return that a line feed
/// follows left out.
pub open spec fn unix_lines(s: Seq<char>, from: int) -> Seq<char>
    decreases s.len() - from,
{
    if !(0 <= from < s.len()) {
        Seq::empty()
    } else if s[from] == '\r' && has(s, from + 1, '\n') {
        unix_lines(s, from + 1)
    } else {
        seq![s[from]] + unix_lines(s, from + 1)
    }
}

/// A text without a byte order mark at its start and with its line breaks
/// made line feeds.
pub open spec fn normalized(s: Seq<char>) -> Seq<char> {
    if has(s, 0, bom()) {
        unix_lines(s, 1)
    } else {
        unix_lines(s, 0)
    }
}

/// The first position at or after `from` where `@=` stands; the length of `s`
/// where it stands nowhere.
pub open spec fn find_at_equals(s: Seq<char>, from: int) -> int
    decreases s.len() - from,
{
    if !(0 <= from < s.len()) {
        s.len() as int
    } else if s[from] == '@' && has(s, from + 1, '=') {
        from
    } else {
        find_at_equals(s, from + 1)
    }
}

/// The form of a data argument: `key@-` before `key@=filepath` before
/// `key=value`, each split at the first place where its mark stands. `None`
/// where the argument has none of the forms.
pub open spec fn form_of(arg: Seq<char>) -> Option<FormSpec> {
    let n = arg.len() as int;
    let at = find_at_equals(arg, 0);
    let eq = find_char(arg, 0, '=');
    if n >= 2 && arg[n - 2] == '@' && arg[n - 1] == '-' {
        Some(FormSpec::Stdin { key: arg.subrange(0, n - 2) })
    } else if at < n {
        Some(FormSpec::File { key: arg.subrange(0, at), path: arg.subrange(at + 2, n) })
    } else if eq < n {
        Some(FormSpec::Inline { key: arg.subrange(0, eq), value: arg.subrange(eq + 1, n) })
    } else {
        None
    }
}

/// The message for an argument that has none of the forms.
pub open spec fn invalid_argument_message(arg: Seq<char>) -> Seq<char> {
    "Argument '"@ + arg + "' is not in a valid format (key=value, key@=filepath, or key@-)"@
}

/// The message for a document whose root is no object.
pub open spec fn root_message() -> Seq<char> {
    "Root of the data file must be a JSON object."@
}

/// The parts of `s` from `from` on between its commas, each trimmed, as
/// strings.
pub open spec fn comma_items(s: Seq<char>, from: int) -> Seq<Tree>
    decreases s.len() - from,
{
    let e = find_char(s, from, ',');
    let item = Tree::Text(trimmed(s.subrange(from, e)));
    if 0 <= from <= e < s.len() {
        seq![item] + comma_items(s, e + 1)
    } else {
        seq![item]
    }
}

/// The value of `key=value`: the normalized text, or, where it holds a comma,
/// the list of its parts between the commas.
pub open spec fn inline_value(value: Seq<char>) -> Tree {
    let n = normalized(value);
    if find_char(n, 0, ',') < n.len() {
        Tree::List(comma_items(n, 0))
    } else {
        Tree::Text(n)
    }
}

/// The value that a normalized text stands for, given what the JSON parser
/// made of the text: the parsed tree, or the text itself where it is no JSON.
pub open spec fn tree_or_text(parsed: Result<Tree, Seq<char>>, text: Seq<char>) -> Tree {
    match parsed {
        Ok(v) => v,
        Err(_) => Tree::Text(text),
    }
}

/// The value that a text read from a file or from the standard input stands
/// for.
pub open spec fn loaded_value(content: Seq<char>) -> Tree {
    tree_or_text(json_parse(normalized(content)), normalized(content))
}

/// The context made of the arguments from index `k` on, added to `acc`, where
/// `used` of the texts read were used up before.
pub open spec fn loaded(
    args: Seq<Seq<char>>,
    k: int,
    contents: Seq<Seq<char>>,
    used: int,
    acc: Map<Seq<char>, Tree>,
) -> LoadingSpec
    decreases args.len() - k,
{
    if !(0 <= k < args.len()) {
        LoadingSpec::Done(acc)
    } else {
        match form_of(args[k]) {
            None => LoadingSpec::Failed(invalid_argument_message(args[k])),
            Some(FormSpec::Inline { key, value }) => loaded(
                args,
                k + 1,
                contents,
                used,
                acc.insert(key, inline_value(value)),
            ),
            Some(FormSpec::Stdin { key }) => if 0 <= used < contents.len() {
                loaded(args, k + 1, contents, used + 1, acc.insert(key, loaded_value(contents[used])))
            } else {
                LoadingSpec::Needs(InputSpec::Stdin)
            },
            Some(FormSpec::File { key, path }) => if 0 <= used < contents.len() {
                loaded(args, k + 1, contents, used + 1, acc.insert(key, loaded_value(contents[used])))
            } else {
                LoadingSpec::Needs(InputSpec::File(path))
            },
        }
    }
}

/// The context that a parsed document stands for: the object at its root.
pub open spec fn document(parsed: Result<Tree, Seq<char>>) -> Result<Map<Seq<char>, Tree>, Seq<char>> {
    match parsed {
        Ok(Tree::Record(m)) => Ok(m),
        Ok(_) => Err(root_message()),
        Err(m) => Err(m),
    }
}

/// The texts that a list of strings holds.
pub open spec fn texts_of(v: Seq<String>) -> Seq<Seq<char>> {
    Seq::new(v.len(), |i: int| v[i]@)
}

/// The model of the outcome of parsing a text as JSON.
pub open spec fn parsed_view(r: Result<Json, String>) -> Result<Tree, Seq<char>> {
    match r {
        Ok(v) => Ok(v@),
        Err(m) => Err(m@),
    }
}

/// Normalizes a text given as characters.
pub fn normalize_chars(s: &[char]) -> (out: Vec<char>)
    ensures
        out@ == normalized(s@),
{
    let n = s.len();
    let mut out: Vec<char> = Vec::new();
    let mut i: usize = if n > 0 && s[0] == '\u{feff}' {
        1
    } else {
        0
    };
    proof {
        assert(out@ + unix_lines(s@, i as int) =~= normalized(s@));
    }
    while i < n
        invariant
            n == s@.len(),
            i <= n,
            out@ + unix_lines(s@, i as int) == normalized(s@),
        decreases n - i,
    {
        let ghost before = out@;
        if s[i] == '\r' && i + 1 < n && s[i + 1] == '\n' {
        } else {
            out.push(s[i]);
            proof {
                assert(before.push(s@[i as int]) + unix_lines(s@, i + 1) =~= before + (seq![
                    s@[i as int],
                ] + unix_lines(s@, i + 1)));
            }
        }
        i += 1;
    }
    proof {
        assert(out@ + Seq::<char>::empty() =~= out@);
    }
    out
}

/// Takes the byte order mark from the start of a text and makes its line
/// breaks line feeds.
pub fn normalize_string(s: &str) -> (out: String)
    ensures
        out@ == normalized(s@),
{
    let chars = chars_of(s);
    let out = normalize_chars(chars.as_slice());
    string_of(out.as_slice())
}

/// Finds the first `@=` at or after `from`.
pub fn scan_at_equals(s: &[char], from: usize) -> (r: usize)
    requires
        from <= s@.len(),
    ensures
        r == find_at_equals(s@, from as int),
        from <= r <= s@.len(),
{
    let n = s.len();
    let mut i: usize = from;
    while i < n
        invariant
            n == s@.len(),
            from <= i <= n,
            find_at_equals(s@, i as int) == find_at_equals(s@, from as int),
        decreases n - i,
    {
        if s[i] == '@' && i + 1 < n && s[i + 1] == '=' {
            return i;
        }
        i += 1;
    }
    n
}

/// Tells the form of a data argument.
pub fn classify_arg(arg: &[char]) -> (r: Option<ArgForm>)
    ensures
        match r {
            Some(form) => form_of(arg@) == Some(form@),
            None => form_of(arg@) is None,
        },
{
    let n = arg.len();
    if n >= 2 && arg[n - 2] == '@' && arg[n - 1] == '-' {
        return Some(ArgForm::Stdin { key: string_of(slice_subrange(arg, 0, n - 2)) });
    }
    let at = scan_at_equals(arg, 0);
    if at < n {
        assert(arg@[at as int] == '@' && has(arg@, at + 1, '=')) by {
            lemma_find_at_equals(arg@, 0);
        }
        return Some(
            ArgForm::File {
                key: string_of(slice_subrange(arg, 0, at)),
                path: string_of(slice_subrange(arg, at + 2, n)),
            },
        );
    }
    let eq = scan_for(arg, 0, '=');
    if eq < n {
        return Some(
            ArgForm::Inline {
                key: string_of(slice_subrange(arg, 0, eq)),
                value: string_of(slice_subrange(arg, eq + 1, n)),
            },
        );
    }
    None
}

/// Where `@=` is found, it stands there.
pub proof fn lemma_find_at_equals(s: Seq<char>, from: int)
    requires
        0 <= from <= s.len(),
    ensures
        from <= find_at_equals(s, from) <= s.len(),
        find_at_equals(s, from) < s.len() ==> s[find_at_equals(s, from)] == '@' && has(
            s,
            find_at_equals(s, from) + 1,
            '=',
        ),
    decreases s.len() - from,
{
    if from < s.len() && !(s[from] == '@' && has(s, from + 1, '=')) {
        lemma_find_at_equals(s, from + 1);
    }
}

/// The value of `key=value`.
pub fn inline_value_of(value: &[char]) -> (v: Json)
    ensures
        v@ == inline_value(value@),
{
    let text = normalize_chars(value);
    let s = text.as_slice();
    let n = s.len();
    if scan_for(s, 0, ',') >= n {
        return Json::String(string_of(s));
    }
    let mut items: Vec<Json> = Vec::new();
    let mut from: usize = 0;
    proof {
        assert(list_of(items@) =~= Seq::empty());
        assert(Seq::<Tree>::empty() + comma_items(s@, 0) =~= comma_items(s@, 0));
    }
    loop
        invariant
            n == s@.len(),
            from <= n,
            s@ == normalized(value@),
            find_char(s@, 0, ',') < n,
            list_of(items@) + comma_items(s@, from as int) == comma_items(s@, 0),
        decreases n - from,
    {
        let e = scan_for(s, from, ',');
        let item = Json::String(string_of(trim(slice_subrange(s, from, e))));
        let ghost before = list_of(items@);
        proof {
            lemma_list_push(items@, item);
        }
        items.push(item);
        if e < n {
            proof {
                assert(before.push(item@) + comma_items(s@, e + 1) =~= before + (seq![item@]
                    + comma_items(s@, e + 1)));
            }
            from = e + 1;
        } else {
            proof {
                assert(before.push(item@) =~= before + seq![item@]);
            }
            return Json::Sequence(items);
        }
    }
}

/// The value that a normalized text stands for, given what the JSON parser
/// made of the text.
pub fn value_or_text(parsed: Result<Json, String>, text: String) -> (v: Json)
    ensures
        v@ == tree_or_text(parsed_view(parsed), text@),
{
    match parsed {
        Ok(v) => v,
        Err(_) => Json::String(text),
    }
}

/// The value that a text read from a file or from the standard input stands
/// for: the JSON it holds, or the text itself where it is no JSON.
pub fn load_value(content: &str) -> (v: Json)
    ensures
        v@ == loaded_value(content@),
{
    let text = normalize_string(content);
    let parsed = parse_json(text.as_str());
    value_or_text(parsed, text)
}

impl Default for Context {
    fn default() -> (c: Context)
        ensures
            c@ == Map::<Seq<char>, Tree>::empty(),
    {
        Context(Vec::new())
    }
}

impl Clone for Context {
    fn clone(&self) -> (c: Context)
        ensures
            c@ == self@,
    {
        Context(clone_entries(&self.0))
    }
}

impl Context {
    /// The empty context.
    pub fn new() -> (c: Context)
        ensures
            c@ == Map::<Seq<char>, Tree>::empty(),
    {
        Context(Vec::new())
    }

    /// Binds a name to a value, in place of what the name was bound to.
    pub fn bind(&mut self, name: String, value: Json)
        ensures
            final(self)@ == old(self)@.insert(name@, value@),
    {
        proof {
            lemma_record_push(self.0@, (name, value));
        }
        self.0.push((name, value));
    }

    /// Makes a context from data arguments. `contents` holds the texts read
    /// for the arguments that take their value from a file or from the
    /// standard input, in the order of these arguments.
    pub fn from_args(args: &Vec<String>, contents: &Vec<String>) -> (r: Loading)
        ensures
            r@ == loaded(texts_of(args@), 0, texts_of(contents@), 0, Map::empty()),
    {
        let mut context = Context::new();
        let mut used: usize = 0;
        let mut k: usize = 0;
        while k < args.len()
            invariant
                k <= args.len(),
                used <= contents.len(),
                loaded(texts_of(args@), k as int, texts_of(contents@), used as int, context@)
                    == loaded(texts_of(args@), 0, texts_of(contents@), 0, Map::empty()),
            decreases args.len() - k,
        {
            let chars = chars_of(args[k].as_str());
            assert(texts_of(args@)[k as int] == chars@);
            match classify_arg(chars.as_slice()) {
                None => {
                    return Loading::Failed(
                        AppError::InvalidArgument(
                            concat3(
                                "Argument '",
                                chars.as_slice(),
                                "' is not in a valid format (key=value, key@=filepath, or key@-)",
                            ),
                        ),
                    );
                },
                Some(ArgForm::Inline { key, value }) => {
                    let v = chars_of(value.as_str());
                    context.bind(key, inline_value_of(v.as_slice()));
                },
                Some(ArgForm::Stdin { key }) => {
                    if used >= contents.len() {
                        return Loading::Needs(Input::Stdin);
                    }
                    assert(texts_of(contents@)[used as int] == contents@[used as int]@);
                    context.bind(key, load_value(contents[used].as_str()));
                    used += 1;
                },
                Some(ArgForm::File { key, path }) => {
                    if used >= contents.len() {
                        return Loading::Needs(Input::File(path));
                    }
                    assert(texts_of(contents@)[used as int] == contents@[used as int]@);
                    context.bind(key, load_value(contents[used].as_str()));
                    used += 1;
                },
            }
            k += 1;
        }
        Loading::Done(context)
    }

    /// Makes a context from what the JSON parser made of a document: the
    /// object at the document's root.
    pub fn from_parsed(parsed: Result<Json, String>) -> (r: Result<Context, AppError>)
        ensures
            match r {
                Ok(context) => document(parsed_view(parsed)) == Ok::<
                    Map<Seq<char>, Tree>,
                    Seq<char>,
                >(context@),
                Err(e) => e is JsonParse && document(parsed_view(parsed)) == Err::<
                    Map<Seq<char>, Tree>,
                    Seq<char>,
                >(e->JsonParse_0@),
            },
    {
        match parsed {
            Ok(Json::Mapping(entries)) => Ok(Context(entries)),
            Ok(_) => Err(
                AppError::JsonParse("Root of the data file must be a JSON object.".to_owned()),
            ),
            Err(m) => Err(AppError::JsonParse(m)),
        }
    }

    /// Makes a context from a JSON document, whose root must be an object.
    pub fn from_interactive_json(json_str: &str) -> (r: Result<Context, AppError>)
        ensures
            match r {
                Ok(context) => document(json_parse(json_str@)) == Ok::<
                    Map<Seq<char>, Tree>,
                    Seq<char>,
                >(context@),
                Err(e) => e is JsonParse && document(json_parse(json_str@)) == Err::<
                    Map<Seq<char>, Tree>,
                    Seq<char>,
                >(e->JsonParse_0@),
            },
    {
        Context::from_parsed(parse_json(json_str))
    }
}

} // verus!
