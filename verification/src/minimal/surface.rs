//! Surface language.

use crate::minimal::StringId;
use vstd::prelude::*;

verus! {

/// A reference to a term in an arena.
pub type TermRef<'arena> = &'arena Term<'arena>;

/// Surface language terms.
#[derive(Debug)]
pub enum Term<'arena> {
    /// A name.
    Var(StringId),
    /// A definition: its name, type and expression, and the term it scopes
    /// over.
    Let(StringId, TermRef<'arena>, TermRef<'arena>, TermRef<'arena>),
    /// The type of types.
    Universe,
    /// A dependent function type.
    FunType(StringId, TermRef<'arena>, TermRef<'arena>),
    /// A function introduction.
    FunIntro(StringId, TermRef<'arena>),
    /// A function elimination.
    FunElim(TermRef<'arena>, TermRef<'arena>),
}

} // verus!
