//! JSON text, read and written by `serde_json`.

use vstd::prelude::*;
use crate::value::{Json, Tree};

verus! {

/// `serde_json::Value`, the tree that `serde_json` parses a text to and writes
/// a text from. Nothing is said of what a value of it holds.
#[verifier::external_type_specification]
#[verifier::external_body]
pub struct ExJsonValue(serde_json::Value);

/// What `serde_json::from_str` makes of a text: the tree it parses to, or the
/// message of the error it reports.
pub uninterp spec fn json_parse(text: Seq<char>) -> Result<Tree, Seq<char>>;

/// The compact JSON text that `serde_json` writes for a tree.
pub uninterp spec fn json_text(v: Tree) -> Seq<char>;

/// The indented JSON text that `serde_json::to_string_pretty` writes for a
/// tree, or the message of the error it reports.
pub uninterp spec fn json_pretty(v: Tree) -> Result<Seq<char>, Seq<char>>;

/// Moves a tree parsed by `serde_json` into a `Json`, variant by variant; a
/// number becomes the text that `serde_json::Number` displays as.
#[verifier::external_body]
fn value_from_json(j: serde_json::Value) -> Json {
    match j {
        serde_json::Value::Null => Json::Null,
        serde_json::Value::Bool(b) => Json::Bool(b),
        serde_json::Value::Number(n) => Json::Number(n.to_string()),
        serde_json::Value::String(s) => Json::String(s),
        serde_json::Value::Array(a) => Json::Sequence(a.into_iter().map(value_from_json).collect()),
        serde_json::Value::Object(m) => Json::Mapping(
            m.into_iter().map(|(k, x)| (k, value_from_json(x))).collect(),
        ),
    }
}

/// Moves a `Json` into a `serde_json::Value`, variant by variant; a number
/// text that `serde_json::Number` does not parse is carried as a string.
#[verifier::external_body]
fn value_to_json(v: &Json) -> serde_json::Value {
    match v {
        Json::Null => serde_json::Value::Null,
        Json::Bool(b) => serde_json::Value::Bool(*b),
        Json::Number(t) => t.parse().map_or_else(|_| t.as_str().into(), serde_json::Value::Number),
        Json::String(s) => serde_json::Value::String(s.clone()),
        Json::Sequence(a) => serde_json::Value::Array(a.iter().map(value_to_json).collect()),
        Json::Mapping(m) => serde_json::Value::Object(
            m.iter().map(|(k, x)| (k.clone(), value_to_json(x))).collect(),
        ),
    }
}

/// Calls `serde_json::from_str` for a `serde_json::Value`. The result is the
/// parsed tree, or the text of the error that the parser reports.
#[verifier::external_body]
pub(crate) fn parse_json(text: &str) -> (r: Result<Json, String>)
    ensures
        match r {
            Ok(v) => json_parse(text@) == Ok::<Tree, Seq<char>>(v@),
            Err(e) => json_parse(text@) == Err::<Tree, Seq<char>>(e@),
        },
{
    serde_json::from_str::<serde_json::Value>(text).map(value_from_json).map_err(|e| e.to_string())
}

/// Calls `to_string` of `serde_json::Value`: the compact JSON text of the tree.
#[verifier::external_body]
pub(crate) fn compact_text(v: &Json) -> (s: String)
    ensures
        s@ == json_text(v@),
{
    value_to_json(v).to_string()
}

/// Calls `serde_json::to_string_pretty`: the indented JSON text of the tree,
/// or the text of the error that the writer reports.
#[verifier::external_body]
pub(crate) fn pretty_text(v: &Json) -> (r: Result<String, String>)
    ensures
        match r {
            Ok(s) => json_pretty(v@) == Ok::<Seq<char>, Seq<char>>(s@),
            Err(e) => json_pretty(v@) == Err::<Seq<char>, Seq<char>>(e@),
        },
{
    serde_json::to_string_pretty(&value_to_json(v)).map_err(|e| e.to_string())
}

} // verus!
