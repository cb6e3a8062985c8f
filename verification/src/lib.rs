//! A decoder for a compact fixed-field notation that records volleyball
//! scouting events, one line at a time. A line holds a data segment and an
//! optional `%`-separated comment; the data segment is either one special
//! event (led by `!`) or a run of nine-character normal event records, each
//! optionally followed by a free-form modifier. Malformed input never stops
//! the parse: every violated grammar rule becomes a warning beside whatever
//! was decoded.
//!
//! `model` states what each line decodes to over sequences of characters;
//! `parser` implements it and proves its results equal the model; `laws`
//! proves the properties that hold of every input; `validation` holds the
//! per-field predicates; `translation` is the locale text lookup used when
//! messages are displayed.

pub mod laws;
pub mod model;
pub mod parser;
pub mod strutil;
pub mod translation;
pub mod validation;
