//! The interactive mode: the document that the user is asked to fill in, and
//! the test whether the user changed it.

use vstd::prelude::*;
use crate::analysis::{
    build_json_value, extract_variables, fields_of, lemma_fields_empty, lemma_fields_push, scaffold,
    variables, Shape, VarUsage,
};
use crate::context::unix_lines;
use crate::error::AppError;
use crate::json::{json_pretty, pretty_text};
use crate::text::{chars_of, push_str, string_of};
use crate::value::{lemma_record_push, record_of, Json, Tree};

verus! {

/// The key of the note at the head of the document.
pub open spec fn comment_key() -> Seq<char> {
    "__comment"@
}

/// The note at the head of the document.
pub open spec fn comment_text() -> Seq<char> {
    "Please fill in the values. An example structure is provided for lists of objects."@
}

/// The document that the user is asked to fill in for the given variables:
/// for each variable the example value for its shape, and a note under the
/// key `__comment`, unless a variable has that name.
pub open spec fn document_for(vars: Map<Seq<char>, Shape>) -> Map<Seq<char>, Tree> {
    Map::new(
        |k: Seq<char>| k == comment_key() || vars.contains_key(k),
        |k: Seq<char>|
            if vars.contains_key(k) {
                scaffold(vars[k])
            } else {
                Tree::Text(comment_text())
            },
    )
}

/// The message for a document that could not be written.
pub open spec fn scaffold_error_message(detail: Seq<char>) -> Seq<char> {
    "Failed to create JSON scaffold: "@ + detail
}

/// The text of a document, given what the JSON writer made of it.
pub open spec fn document_text(written: Result<Seq<char>, Seq<char>>) -> Result<Seq<char>, Seq<char>> {
    match written {
        Ok(text) => Ok(text),
        Err(detail) => Err(scaffold_error_message(detail)),
    }
}

/// Whether two texts are the same but for the form of their line breaks.
pub open spec fn same_text(a: Seq<char>, b: Seq<char>) -> bool {
    unix_lines(a, 0) == unix_lines(b, 0)
}

/// The model of a document's text or of the error in its place.
pub open spec fn text_view(r: Result<String, AppError>) -> Result<Seq<char>, Seq<char>> {
    match r {
        Ok(s) => Ok(s@),
        Err(AppError::JsonParse(m)) => Err(m@),
        Err(e) => Err(e.message()),
    }
}

/// The model of the outcome of writing a document.
pub open spec fn written_view(r: Result<String, String>) -> Result<Seq<char>, Seq<char>> {
    match r {
        Ok(s) => Ok(s@),
        Err(e) => Err(e@),
    }
}

/// Builds the document that the user is asked to fill in: a note, and for
/// each variable the example value for its usage.
pub fn scaffold_document(vars: &Vec<(String, VarUsage)>) -> (doc: Json)
    ensures
        doc@ == Tree::Record(document_for(fields_of(vars@))),
{
    let mut entries: Vec<(String, Json)> = Vec::new();
    let note = (
        "__comment".to_owned(),
        Json::String(
            "Please fill in the values. An example structure is provided for lists of objects.".to_owned(),
        ),
    );
    proof {
        lemma_record_push(entries@, note);
        assert(vars@.take(0) =~= Seq::empty());
        assert(record_of(entries@.push(note)) =~= document_for(fields_of(vars@.take(0))));
    }
    entries.push(note);
    let mut k: usize = 0;
    while k < vars.len()
        invariant
            k <= vars.len(),
            record_of(entries@) == document_for(fields_of(vars@.take(k as int))),
        decreases vars.len() - k,
    {
        let entry = (vars[k].0.clone(), build_json_value(&vars[k].1));
        proof {
            lemma_record_push(entries@, entry);
            lemma_fields_push(vars@.take(k as int), vars@[k as int]);
            assert(vars@.take(k + 1) =~= vars@.take(k as int).push(vars@[k as int]));
            assert(record_of(entries@.push(entry)) =~= document_for(fields_of(vars@.take(k + 1))));
        }
        entries.push(entry);
        k += 1;
    }
    assert(vars@.take(vars.len() as int) =~= vars@);
    Json::Mapping(entries)
}

/// The text of a document, or the error for a document that could not be
/// written, given what the JSON writer made of it.
pub fn document_text_of(written: Result<String, String>) -> (r: Result<String, AppError>)
    ensures
        text_view(r) == document_text(written_view(written)),
        r matches Err(e) ==> e is JsonParse,
{
    match written {
        Ok(text) => Ok(text),
        Err(detail) => {
            let mut out: Vec<char> = Vec::new();
            push_str(&mut out, "Failed to create JSON scaffold: ");
            push_str(&mut out, detail.as_str());
            Err(AppError::JsonParse(string_of(out.as_slice())))
        },
    }
}

/// Writes the document that the user is asked to fill in for a template.
/// `None` where the template has no variables.
pub fn interactive_scaffold(template: &str) -> (r: Option<Result<String, AppError>>)
    ensures
        match r {
            None => variables(template@) == Map::<Seq<char>, Shape>::empty(),
            Some(text) => variables(template@) != Map::<Seq<char>, Shape>::empty() && text_view(text)
                == document_text(json_pretty(Tree::Record(document_for(variables(template@))))),
        },
        r matches Some(Err(e)) ==> e is JsonParse,
{
    let vars = extract_variables(template);
    proof {
        lemma_fields_empty(vars@);
    }
    if vars.len() == 0 {
        return None;
    }
    let doc = scaffold_document(&vars);
    Some(document_text_of(pretty_text(&doc)))
}

/// Tests whether the user left the document as it was, but for the form of
/// the line breaks.
pub fn unchanged(initial: &str, edited: &str) -> (r: bool)
    ensures
        r == same_text(initial@, edited@),
{
    let a = unix(chars_of(initial).as_slice());
    let b = unix(chars_of(edited).as_slice());
    let n = a.len();
    if n != b.len() {
        return false;
    }
    let mut i: usize = 0;
    while i < n
        invariant
            i <= n == a@.len() == b@.len(),
            a@ == unix_lines(initial@, 0),
            b@ == unix_lines(edited@, 0),
            forall|j: int| 0 <= j < i ==> a@[j] == b@[j],
        decreases n - i,
    {
        if a[i] != b[i] {
            assert(a@[i as int] != b@[i as int]);
            return false;
        }
        i += 1;
    }
    assert(a@ =~= b@);
    true
}

/// The text with each carriage return that a line feed follows left out.
pub fn unix(s: &[char]) -> (out: Vec<char>)
    ensures
        out@ == unix_lines(s@, 0),
{
    let n = s.len();
    let mut out: Vec<char> = Vec::new();
    let mut i: usize = 0;
    proof {
        assert(out@ + unix_lines(s@, 0) =~= unix_lines(s@, 0));
    }
    while i < n
        invariant
            n == s@.len(),
            i <= n,
            out@ + unix_lines(s@, i as int) == unix_lines(s@, 0),
        decreases n - i,
    {
        let ghost before = out@;
        if s[i] == '\r' && i + 1 < n && s[i + 1] == '\n' {
        } else {
            out.push(s[i]);
            proof {
                assert(before.push(s@[i as int]) + unix_lines(s@, i + 1) =~= before + (seq![
                    s@[i as int],
                ] + unix_lines(s@, i + 1)));
            }
        }
        i += 1;
    }
    proof {
        assert(out@ + Seq::<char>::empty() =~= out@);
    }
    out
}

} // verus!
