//! A resumable parser-combinator engine.
//!
//! Parsers consume their input one element at a time: each step takes
//! ownership of the parser and of exactly one element and returns either the
//! final output or a successor parser, so in-flight state is carried as a
//! plain value and no instance is ever stepped twice.  Combinators compose
//! parsers while preserving that suspension discipline: transformation
//! wrappers rewrite outputs, inputs or diagnostics; alternation tries two
//! branches and keeps the first to finish; sequencing runs two parsers over
//! the same elements or one after the other.  Failures are split into
//! recoverable diagnostics, which alternation may resolve, and fatal aborts,
//! which end parsing under every alternative.
pub mod character;
pub mod combinator;
pub mod element;
pub mod error;
pub mod laws;
pub mod map;
pub mod parser;
pub mod stream;
