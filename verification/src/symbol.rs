//! Interned identifiers.

use vstd::prelude::*;

verus! {

/// The id that an interner gave to a source string. Two ids are the same
/// name exactly when they are equal.
#[derive(Clone, Copy, PartialEq, Eq, Structural, Debug, Hash)]
pub struct StringId(pub u16);

} // verus!
