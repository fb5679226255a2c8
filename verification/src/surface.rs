//! The surface language.

pub mod lexer;
