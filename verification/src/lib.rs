//! Lexical-analysis front end: turns a byte buffer into a stream of tokens.
//!
//! The library is layered in two: a [`lexer::Lexer`] owns a cursor over the
//! byte buffer and tries a fixed, ordered list of token rules at the current
//! committed position; the mathematical meaning of every rule is given by the
//! spec functions in [`model`], against which each rule is verified.

pub mod token;
pub mod model;
pub mod lexer;
pub mod laws;
