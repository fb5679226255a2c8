//! Core language.

use crate::minimal::{LocalVar, StringId};
use vstd::prelude::*;

verus! {

/// A reference to a term in an arena.
pub type TermRef<'arena> = &'arena Term<'arena>;

/// Core language terms.
#[derive(Debug)]
pub enum Term<'arena> {
    /// Variable occurrences.
    Var(LocalVar),
    /// Let expressions: the name, the type and the expression of a
    /// definition, and the term it scopes over.
    Let(StringId, TermRef<'arena>, TermRef<'arena>, TermRef<'arena>),
    /// The type of types.
    Universe,
    /// Dependent function types.
    ///
    /// Also known as: pi types, dependent product types.
    FunType(StringId, TermRef<'arena>, TermRef<'arena>),
    /// Function introductions.
    ///
    /// Also known as: lambda expressions, anonymous functions.
    FunIntro(StringId, TermRef<'arena>),
    /// Function eliminations.
    ///
    /// Also known as: function applications.
    FunElim(TermRef<'arena>, TermRef<'arena>),
}

/// The mathematical model of a [`Term`]: the same tree without the arena.
pub ghost enum TermV {
    Var(LocalVar),
    Let(StringId, Box<TermV>, Box<TermV>, Box<TermV>),
    Universe,
    FunType(StringId, Box<TermV>, Box<TermV>),
    FunIntro(StringId, Box<TermV>),
    FunElim(Box<TermV>, Box<TermV>),
}

/// The model of a term.
pub open spec fn term_view(term: &Term) -> TermV
    decreases term,
{
    match term {
        Term::Var(local) => TermV::Var(*local),
        Term::Let(name, def_type, def_expr, body_expr) => TermV::Let(
            *name,
            Box::new(term_view(def_type)),
            Box::new(term_view(def_expr)),
            Box::new(term_view(body_expr)),
        ),
        Term::Universe => TermV::Universe,
        Term::FunType(name, input_type, output_type) => TermV::FunType(
            *name,
            Box::new(term_view(input_type)),
            Box::new(term_view(output_type)),
        ),
        Term::FunIntro(name, output_expr) => TermV::FunIntro(
            *name,
            Box::new(term_view(output_expr)),
        ),
        Term::FunElim(head_expr, input_expr) => TermV::FunElim(
            Box::new(term_view(head_expr)),
            Box::new(term_view(input_expr)),
        ),
    }
}

impl<'arena> View for Term<'arena> {
    type V = TermV;

    open spec fn view(&self) -> TermV {
        term_view(self)
    }
}

} // verus!
