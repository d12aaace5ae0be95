//! Recognises option declarations on lines of command-line help text,
//! classifies how many arguments each option accepts, and turns what it
//! found into completion directives for the fish shell.
//!
//! `grammar` states what a line declares, over sequences of characters;
//! `scan` and `parser` read lines accordingly; `render` and `text` make the
//! directives; `laws` proves what holds of every line; `outside` holds what
//! is taken on trust.

pub mod enum_;
pub mod grammar;
pub mod laws;
pub mod outside;
pub mod parser;
pub mod render;
pub mod scan;
pub mod text;
