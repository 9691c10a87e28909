//! A macro compiler for C sources annotated with module blocks.
//!
//! A source text is plain C with blocks of the form `@Module { .. }` in it.
//! A block declares macros: plain objects, templates with formal parameters,
//! and the commands `@use`, `@export` and `@impl`.  Compiling replaces every
//! block by `#define` lines with generated symbol names and leaves the rest
//! of the text as it stands.
//!
//! The work is done in three steps:
//!
//! * [`token`] cuts a text into tokens, and [`lexer`] hands them to the
//!   parser one by one;
//! * [`parse`] builds the syntax tree of [`ast`];
//! * [`compile`] resolves names across the modules of all files and renders
//!   the output.
//!
//! [`error`] holds the failures of parsing and compiling, [`report`] the text
//! that is shown for them, and [`debug`] how values read inside that text.
//! [`laws`] states what holds of the library for all inputs.
//!
//! Every function is verified against a contract over mathematical models:
//! text is a `Seq<char>`, and `deep_view()` maps a syntax tree or an error to
//! its model.

pub mod ast;
pub mod compile;
pub mod debug;
pub mod error;
pub mod laws;
pub mod lexer;
pub mod parse;
pub mod report;
pub mod text;
pub mod token;
