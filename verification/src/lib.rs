//! A text-templating engine: a template holds variable references and
//! nestable loops, and is rendered against a tree of data, the context.
//!
//! - [`pattern`] recognises the three surface forms of the template language,
//!   and [`nesting`] pairs a loop-open tag with the tag that closes its loop.
//! - [`value`] holds the data tree and the lookup of dotted paths in it;
//!   [`json`] reads and writes JSON text with `serde_json`.
//! - [`args`] parses the argument text of a function call.
//! - [`engine`] renders a template. It runs no function itself: it is handed
//!   the results of the calls made so far, and reports the next call it needs.
//! - [`builtin_fns`] holds the rules of the builtin function `files`.
//! - [`analysis`] infers from a template the shape of the data it expects, and
//!   [`interactive`] makes of it the document that a user fills in.
//! - [`context`] makes a context from data arguments or from a JSON document.
//! - [`cli`], [`error`] and [`template_manager`] hold the program's commands,
//!   its errors and the rules of its template store.
//!
//! Texts are modelled as `Seq<char>`, the data tree as [`value::Tree`], and
//! every function states what it returns over these models.

pub mod text;
pub mod value;
pub mod json;
pub mod pattern;
pub mod nesting;
pub mod analysis;
pub mod args;
pub mod builtin_fns;
pub mod context;
pub mod engine;
pub mod interactive;
pub mod error;
pub mod cli;
pub mod template_manager;
