//! Diagnostics for SPWN documents.
//!
//! An editor reports each change of a document with its whole text. The text is parsed,
//! and what the parser has to say becomes a list of diagnostics: a message, a severity and
//! a range of lines and columns. This crate holds everything between the parser and the
//! connection to the editor:
//!
//! - `text`: line endings in normalized form, in which the parser counts its offsets;
//! - `line_index`: the table of line starts of a text, and the lookup from an offset to
//!   its line and column;
//! - `lines`: what the table holds for a text put together from lines;
//! - `position`, `utils`: positions, ranges, and the range of a span of offsets;
//! - `syntax_errors`: the parser's errors in uniform shape, and the diagnostics for a text;
//! - `dispatch`: the order of parses of one document, so that a late result of an older
//!   text never replaces the diagnostics of a newer one;
//! - `initialize`: what the server declares of itself when a session starts.
//!
//! The parser and the connection are called from outside: the functions here take what
//! they delivered and return what is to be sent.

pub mod dispatch;
pub mod initialize;
pub mod line_index;
pub mod lines;
pub mod position;
pub mod syntax_errors;
pub mod text;
pub mod utils;
