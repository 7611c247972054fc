//! A combinator-based command-line argument parser with shell completion.
//!
//! Parsers are values of a closed tree type: leaf parsers for named flags and
//! arguments, positional items and raw matchers, combined with products and
//! alternations. The same tree runs in a normal mode that produces a value and
//! in a completion mode that collects the candidates a shell can offer.
pub mod text;
pub mod value;
pub mod item;
pub mod complete_gen;
pub mod args;
pub mod parsers;
pub mod simple;
pub mod md;
