//! Source locations: byte ranges in files, and values annotated with them.

use vstd::prelude::*;

verus! {

/// Identifies a source file.
pub type FileId = usize;

/// A range of bytes in a source file.
#[derive(Clone, Copy, PartialEq, Eq, Structural, Debug)]
pub struct ByteRange {
    pub file_id: FileId,
    pub start: usize,
    pub end: usize,
}

impl ByteRange {
    pub fn new(file_id: FileId, start: usize, end: usize) -> (range: ByteRange)
        ensures
            range == (ByteRange { file_id, start, end }),
    {
        ByteRange { file_id, start, end }
    }

    pub fn file_id(&self) -> (id: FileId)
        ensures
            id == self.file_id,
    {
        self.file_id
    }

    pub fn start(&self) -> (start: usize)
        ensures
            start == self.start,
    {
        self.start
    }

    pub fn end(&self) -> (end: usize)
        ensures
            end == self.end,
    {
        self.end
    }

    /// The smallest range of the same file that covers both ranges.
    pub open spec fn spec_merge(self, other: ByteRange) -> Option<ByteRange> {
        if self.file_id == other.file_id {
            Some(
                ByteRange {
                    file_id: self.file_id,
                    start: if self.start <= other.start {
                        self.start
                    } else {
                        other.start
                    },
                    end: if self.end >= other.end {
                        self.end
                    } else {
                        other.end
                    },
                },
            )
        } else {
            None
        }
    }

    /// Merges two ranges, where they lie in the same file.
    pub fn merge(&self, other: &ByteRange) -> (merged: Option<ByteRange>)
        ensures
            merged == self.spec_merge(*other),
    {
        if self.file_id == other.file_id {
            let start = if self.start <= other.start {
                self.start
            } else {
                other.start
            };
            let end = if self.end >= other.end {
                self.end
            } else {
                other.end
            };
            Some(ByteRange { file_id: self.file_id, start, end })
        } else {
            None
        }
    }
}

/// Where a term or value came from, as far as that is known.
#[derive(Clone, Copy, PartialEq, Eq, Structural, Debug)]
pub enum Span {
    Range(ByteRange),
    Empty,
}

impl Span {
    /// The span that covers both spans: a range where both are ranges of one
    /// file, and empty otherwise.
    pub open spec fn spec_merge(self, other: Span) -> Span {
        match (self, other) {
            (Span::Range(a), Span::Range(b)) => match a.spec_merge(b) {
                Some(range) => Span::Range(range),
                None => Span::Empty,
            },
            _ => Span::Empty,
        }
    }

    pub fn merge(&self, other: &Span) -> (merged: Span)
        ensures
            merged == self.spec_merge(*other),
    {
        match (self, other) {
            (Span::Range(a), Span::Range(b)) => match a.merge(b) {
                Some(range) => Span::Range(range),
                None => Span::Empty,
            },
            _ => Span::Empty,
        }
    }
}

/// A value together with the span it came from.
#[derive(Clone, Debug)]
pub struct Spanned<T> {
    pub span: Span,
    pub inner: T,
}

impl<T> Spanned<T> {
    pub fn new(span: Span, inner: T) -> (spanned: Spanned<T>)
        ensures
            spanned == (Spanned { span, inner }),
    {
        Spanned { span, inner }
    }

    /// A value that came from nowhere in the source.
    pub fn empty(inner: T) -> (spanned: Spanned<T>)
        ensures
            spanned == (Spanned { span: Span::Empty, inner }),
    {
        Spanned { span: Span::Empty, inner }
    }

    pub fn span(&self) -> (span: Span)
        ensures
            span == self.span,
    {
        self.span
    }

    /// Widens the span of `other` to cover `other_span` as well.
    pub fn merge(other_span: Span, other: Spanned<T>) -> (spanned: Spanned<T>)
        ensures
            spanned == (Spanned { span: other.span.spec_merge(other_span), inner: other.inner }),
    {
        let Spanned { span, inner } = other;
        Spanned { span: span.merge(&other_span), inner }
    }
}

} // verus!
