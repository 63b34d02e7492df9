//! The argument text of a function call: comma-separated `key: value` pairs,
//! where a value is a JSON literal or a dotted path into the context.

use vstd::prelude::*;
use vstd::slice::slice_subrange;
use crate::error::concat3;
use crate::json::{json_parse, parse_json};
use crate::pattern::copy_range;
use crate::text::{find_char, scan_for, string_of, trim, trimmed};
use crate::value::{record_of, resolve, resolve_in, Json, Tree};

verus! {

/// The pieces of `s` from position `i` on, where the piece at hand began at
/// `start`, `depth` brackets are open and `quoted` says whether a double quote
/// is open. A comma ends a piece where no bracket and no quote is open. Each
/// piece is trimmed, and an empty last piece is left out.
pub open spec fn pieces(s: Seq<char>, i: int, start: int, depth: int, quoted: bool) -> Seq<Seq<char>>
    decreases s.len() - i,
{
    if !(0 <= i < s.len()) {
        let last = trimmed(s.subrange(start, s.len() as int));
        if last.len() == 0 {
            Seq::empty()
        } else {
            seq![last]
        }
    } else if s[i] == '"' {
        pieces(s, i + 1, start, depth, !quoted)
    } else if !quoted && (s[i] == '[' || s[i] == '{') {
        pieces(s, i + 1, start, depth + 1, quoted)
    } else if !quoted && (s[i] == ']' || s[i] == '}') {
        pieces(s, i + 1, start, depth - 1, quoted)
    } else if !quoted && depth == 0 && s[i] == ',' {
        seq![trimmed(s.subrange(start, i))] + pieces(s, i + 1, i + 1, depth, quoted)
    } else {
        pieces(s, i + 1, start, depth, quoted)
    }
}

/// The top-level arguments of an argument text: its pieces between the commas
/// that stand outside brackets, braces and double quotes.
pub open spec fn split_args(s: Seq<char>) -> Seq<Seq<char>> {
    pieces(s, 0, 0, 0, false)
}

/// The texts that a list of character vectors holds.
pub open spec fn texts(parts: Seq<Vec<char>>) -> Seq<Seq<char>> {
    Seq::new(parts.len(), |i: int| parts[i]@)
}

/// The message for an argument without a `:`.
pub open spec fn missing_value_message(key: Seq<char>) -> Seq<char> {
    "Argument '"@ + key + "' is missing a value"@
}

/// The message for a value that is neither a literal nor a known path.
pub open spec fn unresolved_message(text: Seq<char>) -> Seq<char> {
    "Argument value '"@ + text + "' is not a valid JSON literal nor a known variable."@
}

/// The value of an argument whose trimmed text is `text`, given what the JSON
/// parser made of the text: the literal if the text is one, else the value at
/// the dotted path `text` of the context. An empty text has no value.
pub open spec fn chosen_value(parsed: Result<Tree, Seq<char>>, text: Seq<char>, ctx: Tree) -> Result<
    Tree,
    Seq<char>,
> {
    if text.len() == 0 {
        Err(unresolved_message(text))
    } else {
        match parsed {
            Ok(v) => Ok(v),
            Err(_) => match resolve(ctx, text) {
                Some(v) => Ok(v),
                None => Err(unresolved_message(text)),
            },
        }
    }
}

/// The value of an argument whose text is `val`.
pub open spec fn arg_value(val: Seq<char>, ctx: Tree) -> Result<Tree, Seq<char>> {
    chosen_value(json_parse(trimmed(val)), trimmed(val), ctx)
}

/// The arguments from index `k` on bound into `acc`, each at its key: the
/// text before the first `:` is the key, the text after it the value. The
/// first argument without a `:` or without a value ends the binding with its
/// message.
pub open spec fn bound(parts: Seq<Seq<char>>, k: int, ctx: Tree, acc: Map<Seq<char>, Tree>) -> Result<
    Map<Seq<char>, Tree>,
    Seq<char>,
>
    decreases parts.len() - k,
{
    if !(0 <= k < parts.len()) {
        Ok(acc)
    } else {
        let part = parts[k];
        let colon = find_char(part, 0, ':');
        if colon >= part.len() {
            Err(missing_value_message(trimmed(part)))
        } else {
            match arg_value(part.subrange(colon + 1, part.len() as int), ctx) {
                Err(m) => Err(m),
                Ok(v) => bound(parts, k + 1, ctx, acc.insert(trimmed(part.subrange(0, colon)), v)),
            }
        }
    }
}

/// The argument map that an argument text stands for in a context, or the
/// message of its first error. A blank text stands for the empty map.
pub open spec fn parsed_args(text: Seq<char>, ctx: Tree) -> Result<Map<Seq<char>, Tree>, Seq<char>> {
    if trimmed(text).len() == 0 {
        Ok(Map::empty())
    } else {
        bound(split_args(text), 0, ctx, Map::empty())
    }
}

/// The model of the outcome of resolving a value.
pub open spec fn value_view(r: Result<Json, String>) -> Result<Tree, Seq<char>> {
    match r {
        Ok(v) => Ok(v@),
        Err(m) => Err(m@),
    }
}

/// The model of the outcome of parsing an argument text.
pub open spec fn args_view(r: Result<Vec<(String, Json)>, String>) -> Result<
    Map<Seq<char>, Tree>,
    Seq<char>,
> {
    match r {
        Ok(entries) => Ok(record_of(entries@)),
        Err(m) => Err(m@),
    }
}

/// Splits an argument text into its top-level arguments.
pub fn split_arguments(s: &[char]) -> (parts: Vec<Vec<char>>)
    ensures
        texts(parts@) == split_args(s@),
{
    let n = s.len();
    let mut parts: Vec<Vec<char>> = Vec::new();
    let mut i: usize = 0;
    let mut start: usize = 0;
    let mut depth: i128 = 0;
    let mut quoted = false;
    while i < n
        invariant
            n == s@.len(),
            start <= i <= n,
            -(i as int) <= depth <= i,
            texts(parts@) + pieces(s@, i as int, start as int, depth as int, quoted) == split_args(
                s@,
            ),
        decreases n - i,
    {
        let c = s[i];
        if c == '"' {
            quoted = !quoted;
        } else if !quoted && (c == '[' || c == '{') {
            depth = depth + 1;
        } else if !quoted && (c == ']' || c == '}') {
            depth = depth - 1;
        } else if !quoted && depth == 0 && c == ',' {
            let piece = trim(slice_subrange(s, start, i));
            let owned = copy_range(piece, 0, piece.len());
            proof {
                let before = texts(parts@);
                assert(owned@ =~= trimmed(s@.subrange(start as int, i as int)));
                assert(texts(parts@.push(owned)) =~= before.push(owned@));
                assert(before.push(owned@) + pieces(s@, i + 1, i + 1, depth as int, quoted)
                    =~= before + (seq![owned@] + pieces(s@, i + 1, i + 1, depth as int, quoted)));
            }
            parts.push(owned);
            start = i + 1;
        }
        i += 1;
    }
    let last = trim(slice_subrange(s, start, n));
    if last.len() > 0 {
        let owned = copy_range(last, 0, last.len());
        proof {
            assert(owned@ =~= trimmed(s@.subrange(start as int, n as int)));
            assert(texts(parts@.push(owned)) =~= texts(parts@).push(owned@));
            assert(texts(parts@).push(owned@) =~= texts(parts@) + seq![owned@]);
        }
        parts.push(owned);
    } else {
        assert(texts(parts@) + Seq::<Seq<char>>::empty() =~= texts(parts@));
    }
    parts
}

/// Builds the message for a value that is neither a literal nor a known path.
pub fn unresolved(text: &[char]) -> (m: String)
    ensures
        m@ == unresolved_message(text@),
{
    concat3("Argument value '", text, "' is not a valid JSON literal nor a known variable.")
}

/// Chooses the value of an argument whose trimmed text is `text`, given what
/// the JSON parser made of the text.
pub fn choose_arg_value(parsed: Result<Json, String>, text: &[char], ctx: &Vec<(String, Json)>) -> (r:
    Result<Json, String>)
    ensures
        value_view(r) == chosen_value(value_view(parsed), text@, Tree::Record(record_of(ctx@))),
{
    if text.len() == 0 {
        return Err(unresolved(text));
    }
    match parsed {
        Ok(v) => Ok(v),
        Err(_) => match resolve_in(ctx, text) {
            Some(v) => Ok(v.clone()),
            None => Err(unresolved(text)),
        },
    }
}

/// Resolves the value of an argument: a JSON literal, or a dotted path into
/// the context.
pub fn resolve_arg_value(val: &[char], ctx: &Vec<(String, Json)>) -> (r: Result<Json, String>)
    ensures
        value_view(r) == arg_value(val@, Tree::Record(record_of(ctx@))),
{
    let text = trim(val);
    let owned = string_of(text);
    let parsed = parse_json(owned.as_str());
    choose_arg_value(parsed, text, ctx)
}

/// Parses the argument text of a function call against a context.
pub fn parse_function_args(args: &[char], ctx: &Vec<(String, Json)>) -> (r: Result<
    Vec<(String, Json)>,
    String,
>)
    ensures
        args_view(r) == parsed_args(args@, Tree::Record(record_of(ctx@))),
{
    let mut entries: Vec<(String, Json)> = Vec::new();
    if trim(args).len() == 0 {
        return Ok(entries);
    }
    let parts = split_arguments(args);
    let ghost root = Tree::Record(record_of(ctx@));
    let mut k: usize = 0;
    while k < parts.len()
        invariant
            k <= parts.len(),
            trimmed(args@).len() != 0,
            texts(parts@) == split_args(args@),
            root == Tree::Record(record_of(ctx@)),
            bound(texts(parts@), k as int, root, record_of(entries@)) == bound(
                split_args(args@),
                0,
                root,
                Map::empty(),
            ),
        decreases parts.len() - k,
    {
        let part = parts[k].as_slice();
        assert(texts(parts@)[k as int] == part@);
        let colon = scan_for(part, 0, ':');
        if colon >= part.len() {
            let key = trim(part);
            return Err(concat3("Argument '", key, "' is missing a value"));
        }
        let key = string_of(trim(slice_subrange(part, 0, colon)));
        match resolve_arg_value(slice_subrange(part, colon + 1, part.len()), ctx) {
            Err(m) => {
                return Err(m);
            },
            Ok(v) => {
                proof {
                    crate::value::lemma_record_push(entries@, (key, v));
                }
                entries.push((key, v));
            },
        }
        k += 1;
    }
    Ok(entries)
}

} // verus!
