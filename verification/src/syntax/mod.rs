//! The lexical layer: tokens and the scanner that produces them.

pub mod scanner;
pub mod token;
