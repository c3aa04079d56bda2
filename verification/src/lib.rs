//! A small dynamically typed scripting language: scanner, recursive-descent
//! parser with error recovery, value model and tree-walking interpreter.
//!
//! The library neither prints nor reads: what a program shows is handed
//! back as values, and the embedding program supplies, as closures, whatever
//! needs the machine. Numbers are carried as IEEE-754 binary64 bit patterns;
//! the arithmetic on them and the reading of numerals are asked of one
//! closure, the text of imported files of another. Every contract holds
//! whatever those closures answer.
//!
//! Four calls into the standard library are believed, not proved: the two
//! character classes of identifiers, the quoting of a string for display, and
//! the making of a string from characters. They stand in [`text`].

pub mod ast;
pub mod errors;
pub mod interpreter;
pub mod logic;
pub mod number;
pub mod syntax;
pub mod text;

