//! The `fsm!` description language: its tokens and its grammar.

pub mod derive;
pub mod expand;
pub mod parse;
pub mod syntax;
pub mod token;
