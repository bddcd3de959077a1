//! Keyword highlighting of a single input line for an interactive line editor.
//!
//! A [`highlighter::DefaultHighlighter`] holds a list of keywords and three
//! colours. Given a line it looks for the longest keyword that occurs in the
//! line, splits the line around the first occurrence of that keyword, and
//! returns the pieces as styled segments of a [`styled_text::StyledText`].

pub mod highlighter;
pub mod laws;
pub mod selection;
pub mod style;
pub mod styled_text;
pub mod text;

pub use crate::highlighter::{DefaultHighlighter, Highlighter};
pub use crate::styled_text::StyledText;
