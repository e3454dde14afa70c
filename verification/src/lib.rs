//! Searching the lines of a tab-separated file for a regular expression.
//!
//! A file's text is split into lines, every line is cleaned of terminal
//! escape sequences and searched for the first match of a pattern, and the
//! lines that match are joined, in the order of the file, into one report in
//! which the match and the line's index are coloured.
//!
//! The steps, in the order of a run:
//!
//! - [`input`] accepts a path by its extension;
//! - [`lines`] cuts the file's text into lines;
//! - [`pattern`] compiles the pattern and finds its first match in a line;
//! - [`record`] turns one line into what the report shows of it, with
//!   [`highlight`] marking the match and [`decimal`] writing the index;
//! - [`report`] joins what the lines show, and prints it with or without
//!   colour.
//!
//! Three crates do work that is not proved here: `regex` searches
//! ([`engine`]), `ansi_term` paints and `strip_ansi_escapes` strips
//! ([`ansi`]). Each of their calls stands behind a contract that says what
//! the crate documents of it; everything else is verified against those
//! contracts. Reading files, the command line and the worker threads are left
//! to the program that uses this library: every function here goes from plain
//! values to plain values.

pub mod ansi;
pub mod chars;
pub mod decimal;
pub mod engine;
pub mod error;
pub mod highlight;
pub mod input;
pub mod lines;
pub mod pattern;
pub mod record;
pub mod report;
