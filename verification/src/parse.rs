//! The parser: from tokens to the syntax tree.

pub mod body;
pub mod command;
pub mod module;
pub mod object;
pub mod params;
