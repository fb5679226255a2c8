//! The syntax of a data description language: host expressions and types,
//! the binary types that are described with them, and the contexts that
//! they are checked in.

use crate::shared::share;
use crate::symbol::StringId;
use std::sync::Arc;
use vstd::prelude::*;

pub mod binary;
pub mod host;

verus! {

/// Names of variables and fields.
pub type Name = StringId;

/// A variable: free, with its name, or bound, with the number of binders
/// between the occurrence and its binder.
#[derive(Clone, Copy, PartialEq, Eq, Structural, Debug)]
pub enum Var {
    Free(Name),
    Bound(Name, u32),
}

/// What a name is bound to in a context.
#[derive(Debug)]
pub enum Binding {
    /// An expression of the given type.
    Expr(host::Type),
    /// A type of the given kind.
    Type(binary::Kind),
    /// The definition of a type, with its kind.
    TypeDef(binary::Type, binary::Kind),
}

impl Clone for Binding {
    fn clone(&self) -> (copy: Binding)
        ensures
            copy == *self,
    {
        match self {
            Binding::Expr(ty) => Binding::Expr(ty.clone()),
            Binding::Type(kind) => Binding::Type(kind.clone()),
            Binding::TypeDef(ty, kind) => Binding::TypeDef(ty.clone(), kind.clone()),
        }
    }
}

/// A definition of a named type.
#[derive(Debug)]
pub struct Definition {
    pub name: Name,
    pub ty: binary::Type,
}

/// The bindings of a context, the most recent first.
#[derive(Debug)]
pub enum Bindings {
    Nil,
    Cons(Name, Binding, Arc<Bindings>),
}

impl Bindings {
    pub open spec fn len(&self) -> nat
        decreases self,
    {
        match self {
            Bindings::Nil => 0,
            Bindings::Cons(_, _, rest) => 1 + rest.len(),
        }
    }

    /// The binding that the index `i` addresses: the most recent one is at
    /// index 0.
    pub open spec fn at(&self, i: nat) -> Option<(Name, Binding)>
        decreases self,
    {
        match self {
            Bindings::Nil => None,
            Bindings::Cons(name, binding, rest) => if i == 0 {
                Some((*name, *binding))
            } else {
                rest.at((i - 1) as nat)
            },
        }
    }
}

/// A context of bindings. Extending a copy leaves the context that it was
/// copied from as it was.
#[derive(Debug)]
pub struct Ctx {
    pub bindings: Arc<Bindings>,
}

impl Clone for Ctx {
    fn clone(&self) -> (copy: Ctx)
        ensures
            copy == *self,
    {
        Ctx { bindings: share(&self.bindings) }
    }
}

impl Ctx {
    /// The binding that an index addresses.
    pub open spec fn at(&self, i: u32) -> Option<(Name, Binding)> {
        self.bindings.at(i as nat)
    }

    /// The context with one more binding.
    pub open spec fn extended(&self, name: Name, binding: Binding) -> Ctx {
        Ctx { bindings: Arc::new(Bindings::Cons(name, binding, self.bindings)) }
    }

    /// The context without bindings.
    pub open spec fn empty() -> Ctx {
        Ctx { bindings: Arc::new(Bindings::Nil) }
    }

    pub fn new() -> (ctx: Ctx)
        ensures
            ctx == Ctx::empty(),
    {
        Ctx { bindings: Arc::new(Bindings::Nil) }
    }

    /// Adds a binding as the most recent one.
    pub fn extend(&mut self, name: Name, binding: Binding)
        ensures
            *final(self) == old(self).extended(name, binding),
    {
        let rest = share(&self.bindings);
        self.bindings = Arc::new(Bindings::Cons(name, binding, rest));
    }

    /// The binding that an index addresses, where there is one.
    pub fn lookup(&self, i: u32) -> (found: Option<(&Name, &Binding)>)
        ensures
            match found {
                Some((name, binding)) => self.at(i) == Some((*name, *binding)),
                None => self.at(i) is None,
            },
    {
        let mut bindings: &Bindings = &*self.bindings;
        let mut left: u32 = i;
        loop
            invariant
                left <= i,
                self.bindings.at(i as nat) == bindings.at(left as nat),
            decreases bindings,
        {
            match bindings {
                Bindings::Nil => {
                    return None;
                },
                Bindings::Cons(name, binding, rest) => {
                    if left == 0 {
                        return Some((name, binding));
                    }
                    left = left - 1;
                    bindings = &**rest;
                },
            }
        }
    }
}

} // verus!
