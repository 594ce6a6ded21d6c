//! The front end of a tree-walking Lox interpreter: a scanner that turns
//! source text into tokens, an expression tree with a visitor interface,
//! and a printer that renders a tree in parenthesized prefix notation.
//!
//! Every function states its behaviour in a contract over the mathematical
//! model in [`grammar`], and Verus proves the code against it.

pub mod text;
pub mod decimal;
pub mod decimal_laws;
pub mod token;
pub mod reporter;
pub mod grammar;
pub mod scanner;
pub mod scan_laws;
pub mod expr;
pub mod ast_printer;

pub use crate::reporter::Lox;
