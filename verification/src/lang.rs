//! The language as it is written, before elaboration.

use vstd::prelude::*;

pub mod surface;

verus! {

/// A range of bytes in a source file.
#[derive(Clone, Copy, PartialEq, Eq, Structural, Debug)]
pub struct Range {
    pub start: usize,
    pub end: usize,
}

/// Data that covers a range of the source.
#[derive(Clone, Debug)]
pub struct Ranged<Data> {
    pub range: Range,
    pub data: Data,
}

impl<Data> Ranged<Data> {
    pub fn new(range: Range, data: Data) -> (ranged: Ranged<Data>)
        ensures
            ranged.range == range,
            ranged.data == data,
    {
        Ranged { range, data }
    }

    pub fn range(&self) -> (range: Range)
        ensures
            range == self.range,
    {
        self.range
    }
}

} // verus!
