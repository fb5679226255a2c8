//! Environments: stacks of bindings that are addressed by de Bruijn indices
//! (counted from the most recent binding) or levels (counted from the root).

use crate::shared::share;
use std::sync::Arc;
use vstd::prelude::*;

verus! {

/// A de Bruijn index: the number of bindings between a variable occurrence
/// and its binder.
#[derive(Clone, Copy, PartialEq, Eq, Structural, Debug)]
pub struct Index(pub u16);

impl Index {
    /// The index of the most recent binding.
    pub fn last() -> (index: Index)
        ensures
            index == Index(0),
    {
        Index(0)
    }

    /// The index of the binding before this one.
    pub fn prev(self) -> (index: Index)
        requires
            self.0 < u16::MAX,
        ensures
            index == Index((self.0 + 1) as u16),
    {
        Index(self.0 + 1)
    }
}

/// A de Bruijn level: the number of bindings between the root of the
/// environment and a binder.
#[derive(Clone, Copy, PartialEq, Eq, Structural, Debug)]
pub struct Level(pub u16);

impl Level {
    /// The level of the first binding.
    pub fn first() -> (level: Level)
        ensures
            level == Level(0),
    {
        Level(0)
    }

    /// The level of the binding after this one.
    pub fn next(self) -> (level: Level)
        requires
            self.0 < u16::MAX,
        ensures
            level == Level((self.0 + 1) as u16),
    {
        Level(self.0 + 1)
    }
}

/// The number of bindings in an environment.
#[derive(Clone, Copy, PartialEq, Eq, Structural, Debug)]
pub struct EnvLen(pub u16);

impl EnvLen {
    /// The index that addresses `level` in an environment of this length.
    pub open spec fn spec_level_to_index(self, level: Level) -> Option<Index> {
        if level.0 < self.0 {
            Some(Index((self.0 - level.0 - 1) as u16))
        } else {
            None
        }
    }

    /// The level that `index` addresses in an environment of this length.
    pub open spec fn spec_index_to_level(self, index: Index) -> Option<Level> {
        if index.0 < self.0 {
            Some(Level((self.0 - index.0 - 1) as u16))
        } else {
            None
        }
    }

    pub fn new() -> (len: EnvLen)
        ensures
            len == EnvLen(0),
    {
        EnvLen(0)
    }

    /// Converts a level to an index, where the level is bound.
    pub fn level_to_index(self, level: Level) -> (index: Option<Index>)
        ensures
            index == self.spec_level_to_index(level),
    {
        if level.0 < self.0 {
            Some(Index(self.0 - level.0 - 1))
        } else {
            None
        }
    }

    /// Converts an index to a level, where the index is bound.
    pub fn index_to_level(self, index: Index) -> (level: Option<Level>)
        ensures
            level == self.spec_index_to_level(index),
    {
        if index.0 < self.0 {
            Some(Level(self.0 - index.0 - 1))
        } else {
            None
        }
    }

    /// The level that the next binding will get.
    pub fn next_level(self) -> (level: Level)
        ensures
            level == Level(self.0),
    {
        Level(self.0)
    }

    /// Whether the environment has reached the largest length that can be
    /// addressed.
    pub fn is_full(self) -> (full: bool)
        ensures
            full == (self.0 == u16::MAX),
    {
        self.0 == u16::MAX
    }

    pub fn push(&mut self)
        requires
            old(self).0 < u16::MAX,
        ensures
            *final(self) == EnvLen((old(self).0 + 1) as u16),
    {
        self.0 = self.0 + 1;
    }

    pub fn pop(&mut self)
        requires
            old(self).0 > 0,
        ensures
            *final(self) == EnvLen((old(self).0 - 1) as u16),
    {
        self.0 = self.0 - 1;
    }

    pub fn truncate(&mut self, len: EnvLen)
        ensures
            *final(self) == len,
    {
        *self = len;
    }
}

/// A flat environment that is addressed by level.
pub struct SliceEnv<Entry> {
    entries: Vec<Entry>,
}

impl<Entry> View for SliceEnv<Entry> {
    type V = Seq<Entry>;

    closed spec fn view(&self) -> Seq<Entry> {
        self.entries@
    }
}

impl<Entry> SliceEnv<Entry> {
    #[verifier::type_invariant]
    spec fn addressable(&self) -> bool {
        self.entries@.len() <= u16::MAX
    }

    pub fn new() -> (env: SliceEnv<Entry>)
        ensures
            env@ == Seq::<Entry>::empty(),
    {
        SliceEnv { entries: Vec::new() }
    }

    pub fn len(&self) -> (len: EnvLen)
        ensures
            len.0 == self@.len(),
    {
        proof {
            use_type_invariant(self);
        }
        EnvLen(self.entries.len() as u16)
    }

    /// The entry at `level`, where there is one.
    pub fn get_level(&self, level: Level) -> (entry: Option<&Entry>)
        ensures
            level.0 < self@.len() ==> entry == Some(&self@[level.0 as int]),
            level.0 >= self@.len() ==> entry is None,
    {
        if (level.0 as usize) < self.entries.len() {
            Some(&self.entries[level.0 as usize])
        } else {
            None
        }
    }

    /// Replaces the entry at `level`.
    pub fn set_level(&mut self, level: Level, entry: Entry)
        requires
            level.0 < old(self)@.len(),
        ensures
            final(self)@ == old(self)@.update(level.0 as int, entry),
    {
        proof {
            use_type_invariant(&*self);
        }
        let mut entries = Vec::new();
        std::mem::swap(&mut entries, &mut self.entries);
        entries.set(level.0 as usize, entry);
        *self = SliceEnv { entries };
    }

    /// Whether no further entry can be addressed.
    pub fn is_full(&self) -> (full: bool)
        ensures
            full == (self@.len() >= u16::MAX),
    {
        proof {
            use_type_invariant(self);
        }
        self.entries.len() >= u16::MAX as usize
    }

    /// Adds an entry at the next level.
    pub fn push(&mut self, entry: Entry)
        requires
            old(self)@.len() < u16::MAX,
        ensures
            final(self)@ == old(self)@.push(entry),
    {
        let mut entries = Vec::new();
        std::mem::swap(&mut entries, &mut self.entries);
        entries.push(entry);
        *self = SliceEnv { entries };
    }
}

/// A node of the list behind a [`SharedEnv`]: the most recent entry comes
/// first, and the tail is shared with the environments it was pushed on.
enum Node<Entry> {
    Nil,
    Cons(Entry, Arc<Node<Entry>>),
}

/// The entries of a list, the oldest first.
spec fn entries<Entry>(node: &Node<Entry>) -> Seq<Entry>
    decreases node,
{
    match node {
        Node::Nil => Seq::empty(),
        Node::Cons(entry, rest) => entries(&**rest).push(*entry),
    }
}

proof fn lemma_node_decreases<Entry>(node: &Node<Entry>, i: int)
    requires
        0 <= i < entries(node).len(),
    ensures
        decreases_to!(*node => entries(node)[i]),
    decreases node,
{
    match node {
        Node::Nil => {},
        Node::Cons(entry, rest) => {
            if i < entries(&**rest).len() {
                lemma_node_decreases(&**rest, i);
            }
        },
    }
}

/// A persistent environment: a copy shares the entries of the environment
/// that it was copied from, and pushing onto the one leaves the other as it
/// was.
pub struct SharedEnv<Entry> {
    head: Arc<Node<Entry>>,
    len: u16,
}

impl<Entry> View for SharedEnv<Entry> {
    type V = Seq<Entry>;

    /// The entries, the oldest first: position `i` holds the entry of level
    /// `i`.
    closed spec fn view(&self) -> Seq<Entry> {
        entries(&*self.head)
    }
}

impl<Entry> Clone for SharedEnv<Entry> {
    fn clone(&self) -> (env: SharedEnv<Entry>)
        ensures
            env@ == self@,
    {
        proof {
            use_type_invariant(self);
        }
        SharedEnv { head: share(&self.head), len: self.len }
    }
}

impl<Entry> SharedEnv<Entry> {
    #[verifier::type_invariant]
    spec fn counted(&self) -> bool {
        self.len == entries(&*self.head).len()
    }

    /// An environment is larger than each of its entries, which lets a
    /// recursive definition descend into them.
    pub proof fn lemma_entry_decreases(&self, i: int)
        requires
            0 <= i < self@.len(),
        ensures
            decreases_to!(*self => self@[i]),
    {
        lemma_node_decreases(&*self.head, i);
    }

    pub fn new() -> (env: SharedEnv<Entry>)
        ensures
            env@ == Seq::<Entry>::empty(),
    {
        SharedEnv { head: Arc::new(Node::Nil), len: 0 }
    }

    pub fn len(&self) -> (len: EnvLen)
        ensures
            len.0 == self@.len(),
    {
        proof {
            use_type_invariant(self);
        }
        EnvLen(self.len)
    }

    /// The entry that `index` addresses, where it is bound.
    pub fn get_index(&self, index: Index) -> (entry: Option<&Entry>)
        ensures
            index.0 < self@.len() ==> entry == Some(&self@[self@.len() - 1 - index.0]),
            index.0 >= self@.len() ==> entry is None,
    {
        let mut node: &Node<Entry> = &*self.head;
        let mut i: u16 = index.0;
        loop
            invariant
                i <= index.0,
                entries(node).len() <= self@.len(),
                entries(node).len() - i == self@.len() - index.0,
                forall|k: int| 0 <= k < entries(node).len() ==> entries(node)[k] == self@[k],
            decreases node,
        {
            match node {
                Node::Nil => {
                    return None;
                },
                Node::Cons(entry, rest) => {
                    if i == 0 {
                        return Some(entry);
                    }
                    i = i - 1;
                    node = &**rest;
                },
            }
        }
    }

    /// The entry at `level`, where there is one.
    pub fn get_level(&self, level: Level) -> (entry: Option<&Entry>)
        ensures
            level.0 < self@.len() ==> entry == Some(&self@[level.0 as int]),
            level.0 >= self@.len() ==> entry is None,
    {
        match self.len().level_to_index(level) {
            Some(index) => self.get_index(index),
            None => None,
        }
    }

    /// Whether no further entry can be addressed.
    pub fn is_full(&self) -> (full: bool)
        ensures
            full == (self@.len() >= u16::MAX),
    {
        proof {
            use_type_invariant(self);
        }
        self.len == u16::MAX
    }

    /// Binds an entry at the next level.
    pub fn push(&mut self, entry: Entry)
        requires
            old(self)@.len() < u16::MAX,
        ensures
            final(self)@ == old(self)@.push(entry),
    {
        proof {
            use_type_invariant(&*self);
        }
        let rest = share(&self.head);
        *self = SharedEnv { head: Arc::new(Node::Cons(entry, rest)), len: self.len + 1 };
    }

    /// Drops the most recent entry, if there is one.
    pub fn pop(&mut self)
        ensures
            old(self)@.len() > 0 ==> final(self)@ == old(self)@.drop_last(),
            old(self)@.len() == 0 ==> final(self)@ == old(self)@,
    {
        proof {
            use_type_invariant(&*self);
        }
        let rest = match &*self.head {
            Node::Nil => None,
            Node::Cons(_, rest) => Some(share(rest)),
        };
        match rest {
            None => {},
            Some(rest) => {
                assert(entries(&*rest) =~= self@.drop_last());
                *self = SharedEnv { head: rest, len: self.len - 1 };
            },
        }
    }

    /// Drops the most recent entries until at most `len` are left.
    pub fn truncate(&mut self, len: EnvLen)
        ensures
            len.0 <= old(self)@.len() ==> final(self)@ == old(self)@.subrange(0, len.0 as int),
            len.0 > old(self)@.len() ==> final(self)@ == old(self)@,
    {
        assert(old(self)@.subrange(0, old(self)@.len() as int) =~= old(self)@);
        while self.len().0 > len.0
            invariant
                self@.len() <= old(self)@.len(),
                self@ == old(self)@.subrange(0, self@.len() as int),
                len.0 > old(self)@.len() ==> self@ == old(self)@,
                len.0 <= old(self)@.len() ==> len.0 <= self@.len(),
            decreases self@.len(),
        {
            self.pop();
            assert(self@ =~= old(self)@.subrange(0, self@.len() as int));
        }
    }
}

} // verus!
