//! The errors that the program reports.

use vstd::prelude::*;
use crate::text::{push_chars, push_str, string_of};

verus! {

/// An error of the program, with its message.
#[derive(Debug, PartialEq)]
pub enum AppError {
    /// An argument that the program cannot use.
    InvalidArgument(String),
    /// A failure to read or write, with the text of the failure.
    Io(String),
    /// A failure of the editor.
    Editor(String),
    /// A text that is no JSON, or not the JSON that is needed.
    JsonParse(String),
    /// The user left the interactive mode without a change.
    InteractiveAbort(String),
}

impl AppError {
    /// The text that the error is shown as.
    pub open spec fn message(self) -> Seq<char> {
        match self {
            AppError::InvalidArgument(msg) => msg@,
            AppError::Io(err) => "IO Error: "@ + err@,
            AppError::Editor(msg) => "Editor Error: "@ + msg@,
            AppError::JsonParse(msg) => "JSON Parse Error: "@ + msg@,
            AppError::InteractiveAbort(msg) => msg@,
        }
    }

    /// The text that the error is shown as.
    pub fn to_string(&self) -> (s: String)
        ensures
            s@ == self.message(),
    {
        let mut out: Vec<char> = Vec::new();
        match self {
            AppError::InvalidArgument(msg) => {
                push_str(&mut out, msg.as_str());
            },
            AppError::Io(err) => {
                push_str(&mut out, "IO Error: ");
                push_str(&mut out, err.as_str());
            },
            AppError::Editor(msg) => {
                push_str(&mut out, "Editor Error: ");
                push_str(&mut out, msg.as_str());
            },
            AppError::JsonParse(msg) => {
                push_str(&mut out, "JSON Parse Error: ");
                push_str(&mut out, msg.as_str());
            },
            AppError::InteractiveAbort(msg) => {
                push_str(&mut out, msg.as_str());
            },
        }
        string_of(out.as_slice())
    }
}

/// Builds the text made of three pieces.
pub fn concat3(a: &str, b: &[char], c: &str) -> (s: String)
    ensures
        s@ == a@ + b@ + c@,
{
    let mut out: Vec<char> = Vec::new();
    push_str(&mut out, a);
    push_chars(&mut out, b);
    push_str(&mut out, c);
    string_of(out.as_slice())
}

/// Builds the text made of five pieces.
pub fn concat5(a: &str, b: &[char], c: &str, d: &[char], e: &str) -> (s: String)
    ensures
        s@ == a@ + b@ + c@ + d@ + e@,
{
    let mut out: Vec<char> = Vec::new();
    push_str(&mut out, a);
    push_chars(&mut out, b);
    push_str(&mut out, c);
    push_chars(&mut out, d);
    push_str(&mut out, e);
    string_of(out.as_slice())
}

} // verus!
