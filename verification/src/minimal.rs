//! A small dependently typed language with let expressions and dependent
//! functions only: its core syntax, its semantics by normalisation by
//! evaluation, and a bidirectional elaborator from a surface syntax.

use crate::shared::share;
use std::sync::Arc;
use vstd::prelude::*;

pub mod elaboration;
pub mod laws;
pub mod lexer;
pub mod model;
pub mod semantics;
pub mod surface;
pub mod syntax;

verus! {

/// Interned strings.
pub type StringId = crate::symbol::StringId;

/// De Bruijn index.
#[derive(Clone, Copy, PartialEq, Eq, Structural, PartialOrd, Ord, Debug)]
pub struct LocalVar(pub u16);

/// De Bruijn level.
#[derive(Clone, Copy, PartialEq, Eq, Structural, PartialOrd, Ord, Debug)]
pub struct GlobalVar(pub u16);

/// Length of the environment.
#[derive(Clone, Copy, PartialEq, Eq, Structural, PartialOrd, Ord, Debug)]
pub struct EnvLen(pub u16);

impl EnvLen {
    /// The level of the binding that an index addresses in an environment
    /// of this length.
    pub open spec fn spec_local_to_global(self, local: LocalVar) -> Option<GlobalVar> {
        if local.0 < self.0 {
            Some(GlobalVar((self.0 - local.0 - 1) as u16))
        } else {
            None
        }
    }

    /// The index that addresses the binding at a level in an environment of
    /// this length.
    pub open spec fn spec_global_to_local(self, global: GlobalVar) -> Option<LocalVar> {
        if global.0 < self.0 {
            Some(LocalVar((self.0 - global.0 - 1) as u16))
        } else {
            None
        }
    }

    pub fn local_to_global(self, local: LocalVar) -> (global: Option<GlobalVar>)
        ensures
            global == self.spec_local_to_global(local),
    {
        match self.0.checked_sub(local.0) {
            Some(above) => match above.checked_sub(1) {
                Some(level) => Some(GlobalVar(level)),
                None => None,
            },
            None => None,
        }
    }

    pub fn global_to_local(self, global: GlobalVar) -> (local: Option<LocalVar>)
        ensures
            local == self.spec_global_to_local(global),
    {
        match self.0.checked_sub(global.0) {
            Some(above) => match above.checked_sub(1) {
                Some(index) => Some(LocalVar(index)),
                None => None,
            },
            None => None,
        }
    }

    /// The level that the next binding will get.
    pub fn next_global(self) -> (global: GlobalVar)
        ensures
            global == GlobalVar(self.0),
    {
        GlobalVar(self.0)
    }

    /// The length with one more parameter bound.
    pub fn add_param(self) -> (len: EnvLen)
        requires
            self.0 < u16::MAX,
        ensures
            len == EnvLen((self.0 + 1) as u16),
    {
        EnvLen(self.0 + 1)
    }
}

/// A generic environment.
pub struct Env<Entry> {
    entries: Vec<Entry>,
}

impl<Entry> View for Env<Entry> {
    type V = Seq<Entry>;

    /// The entries, the oldest first.
    closed spec fn view(&self) -> Seq<Entry> {
        self.entries@
    }
}

impl<Entry> Env<Entry> {
    #[verifier::type_invariant]
    spec fn addressable(&self) -> bool {
        self.entries@.len() <= u16::MAX
    }

    /// An environment is larger than each of its entries, which lets a
    /// recursive definition descend into them.
    pub proof fn lemma_entry_decreases(&self, i: int)
        requires
            0 <= i < self@.len(),
        ensures
            decreases_to!(*self => self@[i]),
    {
    }

    pub fn new() -> (env: Env<Entry>)
        ensures
            env@ == Seq::<Entry>::empty(),
    {
        Env { entries: Vec::new() }
    }

    pub fn len(&self) -> (len: EnvLen)
        ensures
            len.0 == self@.len(),
    {
        proof {
            use_type_invariant(self);
        }
        EnvLen(self.entries.len() as u16)
    }

    pub fn get_global(&self, global: GlobalVar) -> (entry: Option<&Entry>)
        ensures
            global.0 < self@.len() ==> entry == Some(&self@[global.0 as int]),
            global.0 >= self@.len() ==> entry is None,
    {
        if (global.0 as usize) < self.entries.len() {
            Some(&self.entries[global.0 as usize])
        } else {
            None
        }
    }

    pub fn get_local(&self, local: LocalVar) -> (entry: Option<&Entry>)
        ensures
            local.0 < self@.len() ==> entry == Some(&self@[self@.len() - 1 - local.0]),
            local.0 >= self@.len() ==> entry is None,
    {
        match self.len().local_to_global(local) {
            Some(global) => self.get_global(global),
            None => None,
        }
    }

    /// Whether no further entry can be addressed.
    pub fn is_full(&self) -> (full: bool)
        ensures
            full == (self@.len() >= u16::MAX),
    {
        proof {
            use_type_invariant(self);
        }
        self.entries.len() >= u16::MAX as usize
    }

    pub fn push_entry(&mut self, entry: Entry)
        requires
            old(self)@.len() < u16::MAX,
        ensures
            final(self)@ == old(self)@.push(entry),
    {
        let mut entries = Vec::new();
        std::mem::swap(&mut entries, &mut self.entries);
        entries.push(entry);
        *self = Env { entries };
    }

    pub fn pop_entry(&mut self)
        ensures
            old(self)@.len() > 0 ==> final(self)@ == old(self)@.drop_last(),
            old(self)@.len() == 0 ==> final(self)@ == old(self)@,
    {
        proof {
            use_type_invariant(&*self);
        }
        let mut entries = Vec::new();
        std::mem::swap(&mut entries, &mut self.entries);
        let _ = entries.pop();
        *self = Env { entries };
    }
}

impl<T> Clone for Env<Arc<T>> {
    /// A copy of the environment that shares its entries.
    fn clone(&self) -> (env: Env<Arc<T>>)
        ensures
            env@ == self@,
    {
        proof {
            use_type_invariant(self);
        }
        let mut entries: Vec<Arc<T>> = Vec::new();
        let mut i: usize = 0;
        while i < self.entries.len()
            invariant
                i <= self.entries.len(),
                self.entries@.len() <= u16::MAX,
                entries@ == self.entries@.subrange(0, i as int),
            decreases self.entries.len() - i,
        {
            entries.push(share(&self.entries[i]));
            assert(entries@ =~= self.entries@.subrange(0, i + 1));
            i = i + 1;
        }
        assert(entries@ =~= self.entries@);
        Env { entries }
    }
}

} // verus!
