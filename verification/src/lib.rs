//! A quoting-aware, nesting-aware lexer for one line of shell input.
//!
//! Every token borrows its text from the line. `model` says, as a
//! function on a cursor over the line's bytes, what the next token is;
//! `words` holds the executable lexer, proved to follow it; `laws` holds
//! what follows for every line; `text` cuts the line where the lexer
//! stops.

pub mod bytes;
pub mod token;
pub mod text;
pub mod model;
pub mod laws;
pub mod words;
