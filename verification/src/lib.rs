//! An elaborator and normaliser for a small dependently typed language that
//! describes binary data formats.

pub mod arena;
pub mod ast;
pub mod check;
pub mod core_lang;
pub mod env;
pub mod lang;
pub mod minimal;
pub mod shared;
pub mod source;
pub mod surface;
pub mod symbol;
pub mod syntax;
