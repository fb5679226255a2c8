//! Arenas: where the terms that the library builds are placed, to live as
//! long as the arena does.

use vstd::prelude::*;

verus! {

/// An arena that hands out references to the values placed in it. The
/// values are dropped, and the memory is freed, when the arena is dropped.
///
/// This holds a `scoped_arena::Scope`, which is not verified here.
#[verifier::external_body]
pub struct Scope<'arena> {
    scope: scoped_arena::Scope<'arena>,
}

impl<'arena> Scope<'arena> {
    /// A new arena.
    ///
    /// Calls `scoped_arena::Scope::new`. Nothing is claimed of it.
    #[verifier::external_body]
    pub fn new() -> Scope<'arena> {
        Scope { scope: scoped_arena::Scope::new() }
    }

    /// Moves a value into the arena.
    ///
    /// Calls `scoped_arena::Scope::to_scope`, which is not verified here. The
    /// contract claims what its documentation says: the reference that comes
    /// back points to the value that was moved.
    #[verifier::external_body]
    pub(crate) fn to_scope<T>(&self, value: T) -> (placed: &T)
        ensures
            *placed == value,
    {
        self.scope.to_scope(value)
    }

    /// Copies a slice into the arena.
    ///
    /// Calls `scoped_arena::Scope::to_scope_from_iter` on the items of the
    /// slice, which is not verified here. The contract claims what its
    /// source shows for an iterator that knows its length: the slice that
    /// comes back holds the items of the iterator, in order.
    #[verifier::external_body]
    pub(crate) fn to_scope_from_iter<T: Copy>(&self, items: &[T]) -> (placed: &[T])
        ensures
            placed@ == items@,
    {
        self.scope.to_scope_from_iter(items.iter().copied())
    }
}

} // verus!
