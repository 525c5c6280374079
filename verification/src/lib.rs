//! Railroad-diagram scripts from regular expressions.
//!
//! A parsed regular expression is turned into an expression of the railroad
//! diagram language: sequences, choices, repetitions, groups and quoted
//! literals.

pub mod ast;
pub mod complement;
pub mod diagram;
pub mod literal;
pub mod ranges;
pub mod script;
pub mod shorthand;
pub mod text;
pub mod translate;
