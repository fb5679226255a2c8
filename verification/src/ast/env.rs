//! The environment that types and expressions are checked in: the types
//! that are defined, and the types of the variables that are bound.

use crate::ast::{Name, Type};
use crate::shared::share;
use std::sync::Arc;
use vstd::prelude::*;

verus! {

/// The entries of an environment, the most recent first.
#[derive(Debug)]
pub enum Entries {
    Nil,
    /// The definition of a type.
    Ty(Name, Type, Arc<Entries>),
    /// A variable with its type.
    Binding(Name, Type, Arc<Entries>),
}

impl Entries {
    /// The most recent definition of the type of the given name.
    pub open spec fn spec_lookup_ty(&self, name: Name) -> Option<Type>
        decreases self,
    {
        match self {
            Entries::Nil => None,
            Entries::Ty(ty_name, ty, rest) => if *ty_name == name {
                Some(*ty)
            } else {
                rest.spec_lookup_ty(name)
            },
            Entries::Binding(_, _, rest) => rest.spec_lookup_ty(name),
        }
    }

    /// The type of the most recent binding of the variable of the given
    /// name.
    pub open spec fn spec_lookup_binding(&self, name: Name) -> Option<Type>
        decreases self,
    {
        match self {
            Entries::Nil => None,
            Entries::Ty(_, _, rest) => rest.spec_lookup_binding(name),
            Entries::Binding(var_name, ty, rest) => if *var_name == name {
                Some(*ty)
            } else {
                rest.spec_lookup_binding(name)
            },
        }
    }
}

/// An environment. A copy shares the entries of the environment that it
/// was copied from, and adding to the one leaves the other as it was.
#[derive(Debug)]
pub struct Env {
    pub entries: Arc<Entries>,
}

impl Env {
    /// The most recent definition of the type of the given name.
    pub open spec fn spec_lookup_ty(&self, name: Name) -> Option<Type> {
        self.entries.spec_lookup_ty(name)
    }

    /// The type of the most recent binding of the variable of the given
    /// name.
    pub open spec fn spec_lookup_binding(&self, name: Name) -> Option<Type> {
        self.entries.spec_lookup_binding(name)
    }

    /// The environment with one more type definition.
    pub open spec fn with_ty(&self, name: Name, ty: Type) -> Env {
        Env { entries: Arc::new(Entries::Ty(name, ty, self.entries)) }
    }

    /// The environment with one more variable.
    pub open spec fn with_binding(&self, name: Name, ty: Type) -> Env {
        Env { entries: Arc::new(Entries::Binding(name, ty, self.entries)) }
    }

    /// The environment without entries.
    pub open spec fn empty() -> Env {
        Env { entries: Arc::new(Entries::Nil) }
    }

    pub fn new() -> (env: Env)
        ensures
            env == Env::empty(),
    {
        Env { entries: Arc::new(Entries::Nil) }
    }

    /// An environment for an inner scope: what is added to it is not added
    /// to this one.
    pub fn extend(&self) -> (env: Env)
        ensures
            env == *self,
    {
        Env { entries: share(&self.entries) }
    }

    /// Defines a type.
    pub fn add_ty(&mut self, name: Name, ty: Type)
        ensures
            *final(self) == old(self).with_ty(name, ty),
    {
        let rest = share(&self.entries);
        self.entries = Arc::new(Entries::Ty(name, ty, rest));
    }

    /// Binds a variable of the given type.
    pub fn add_binding(&mut self, name: Name, ty: Type)
        ensures
            *final(self) == old(self).with_binding(name, ty),
    {
        let rest = share(&self.entries);
        self.entries = Arc::new(Entries::Binding(name, ty, rest));
    }

    /// The most recent definition of the type of the given name.
    pub fn lookup_ty(&self, name: Name) -> (found: Option<&Type>)
        ensures
            match found {
                Some(ty) => self.spec_lookup_ty(name) == Some(*ty),
                None => self.spec_lookup_ty(name) is None,
            },
    {
        let mut entries: &Entries = &*self.entries;
        loop
            invariant
                self.entries.spec_lookup_ty(name) == entries.spec_lookup_ty(name),
            decreases entries,
        {
            match entries {
                Entries::Nil => {
                    return None;
                },
                Entries::Ty(ty_name, ty, rest) => {
                    if *ty_name == name {
                        return Some(ty);
                    }
                    entries = &**rest;
                },
                Entries::Binding(_, _, rest) => {
                    entries = &**rest;
                },
            }
        }
    }

    /// The type of the most recent binding of the variable of the given
    /// name.
    pub fn lookup_binding(&self, name: Name) -> (found: Option<&Type>)
        ensures
            match found {
                Some(ty) => self.spec_lookup_binding(name) == Some(*ty),
                None => self.spec_lookup_binding(name) is None,
            },
    {
        let mut entries: &Entries = &*self.entries;
        loop
            invariant
                self.entries.spec_lookup_binding(name) == entries.spec_lookup_binding(name),
            decreases entries,
        {
            match entries {
                Entries::Nil => {
                    return None;
                },
                Entries::Ty(_, _, rest) => {
                    entries = &**rest;
                },
                Entries::Binding(var_name, ty, rest) => {
                    if *var_name == name {
                        return Some(ty);
                    }
                    entries = &**rest;
                },
            }
        }
    }
}

} // verus!
