//! A tree-walking interpreter for the Lucas scripting language.
//!
//! Source text is scanned into tokens ([`lexer`]), parsed into a syntax
//! tree ([`parser`], by the rules of [`grammar`]) and run on an abstract
//! machine ([`machine`], [`interpreter`], by the rules of [`semantics`]).
//! The machine advances one step at a time and hands every piece of work it
//! cannot do itself (printing a line, floating-point arithmetic) to its
//! host as a [`machine::Action`].
//!
//! What holds of the language as a whole is proved in [`laws`],
//! [`precedence`], [`arithmetic`] and [`recovery`].

pub mod arithmetic;
pub mod ast;
pub mod environment;
pub mod errors;
pub mod grammar;
pub mod interpreter;
pub mod keywords;
pub mod laws;
pub mod lexer;
pub mod machine;
pub mod number;
pub mod numeral;
pub mod parser;
pub mod precedence;
pub mod recovery;
pub mod repl;
pub mod semantics;
pub mod suggest;
pub mod text;
pub mod tokens;
pub mod value;
