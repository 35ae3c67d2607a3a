//! A structured log-field formatter with a prettified, newline-delimited
//! format.
//!
//! The default single-line field format of most loggers is hard to scan when
//! an event carries several fields.  This crate renders an event's fields one
//! per line, with optional ANSI coloring of field names, and renders chained
//! error causes as an indented bullet list.
//!
//! The renderer works on plain data: an event is a sequence of [`logs::LogField`]
//! values, and output is written into a [`sink::TextSink`].  The surrounding
//! logging framework converts its own field stream into these values and
//! forwards the rendered text to the terminal.

pub mod laws;
pub mod logs;
pub mod sink;
pub mod template;
