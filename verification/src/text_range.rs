//! Ranges of a text, in the two forms in which the system tells them.

use std::ops::Range;
use vstd::prelude::*;

verus! {

/// A range told by its place and its length. One at the largest place there is stands for
/// no range.
#[derive(Clone, Copy, Debug, PartialEq, Eq, Structural)]
pub struct NSRange {
    pub location: usize,
    pub length: usize,
}

/// The two ends of a range, if it is one.
pub open spec fn ends_of(range: NSRange) -> Option<(int, int)> {
    if range.location == usize::MAX {
        None
    } else {
        Some((range.location as int, range.location + range.length))
    }
}

impl NSRange {
    /// No range.
    pub fn invalid() -> (range: Self)
        ensures
            range == (NSRange { location: usize::MAX, length: 0 }),
    {
        NSRange { location: usize::MAX, length: 0 }
    }

    /// Whether this is a range.
    pub fn is_valid(&self) -> (yes: bool)
        ensures
            yes == (self.location != usize::MAX),
    {
        self.location != usize::MAX
    }

    /// The range told by its two ends, if it is one.
    pub fn to_range(self) -> (range: Option<Range<usize>>)
        requires
            self.location != usize::MAX ==> self.location + self.length <= usize::MAX,
        ensures
            match range {
                Some(range) => ends_of(self) == Some((range.start as int, range.end as int)),
                None => ends_of(self) is None,
            },
    {
        if self.is_valid() {
            let start: usize = self.location;
            let end: usize = start + self.length;
            Some(start..end)
        } else {
            None
        }
    }
}

/// How many places lie between the two ends of a range.
pub open spec fn range_len(start: usize, end: usize) -> int {
    if start < end {
        end - start
    } else {
        0
    }
}

/// The range between two ends, told by its place and its length.
pub open spec fn told(start: usize, end: usize) -> NSRange {
    NSRange { location: start, length: range_len(start, end) as usize }
}

impl From<Range<usize>> for NSRange {
    fn from(range: Range<usize>) -> (result: Self) {
        NSRange {
            location: range.start,
            length: if range.start < range.end {
                range.end - range.start
            } else {
                0
            },
        }
    }
}

impl vstd::std_specs::convert::FromSpecImpl<Range<usize>> for NSRange {
    open spec fn obeys_from_spec() -> bool {
        true
    }

    open spec fn from_spec(range: Range<usize>) -> Self {
        told(range.start, range.end)
    }
}

/// A range that is told by its place and its length has the same two ends as before.
pub proof fn law_range_comes_back(start: usize, end: usize)
    requires
        start <= end,
        start != usize::MAX,
    ensures
        told(start, end).location != usize::MAX,
        told(start, end).location == start,
        told(start, end).location + told(start, end).length == end,
{
}

/// A place in a text.
#[derive(Clone, Copy, Debug, PartialEq, Eq, Structural)]
pub struct TextPosition {
    pub offset: usize,
}

/// A range of a text.
#[derive(Clone, Copy, Debug, PartialEq, Eq, Structural)]
pub struct TextRange {
    pub start: TextPosition,
    pub end: TextPosition,
}

impl TextRange {
    /// The range between two places.
    pub fn new(start: usize, end: usize) -> (range: Self)
        ensures
            range.start.offset == start,
            range.end.offset == end,
    {
        TextRange { start: TextPosition { offset: start }, end: TextPosition { offset: end } }
    }

    /// The range at a place that holds nothing.
    pub fn empty(offset: usize) -> (range: Self)
        ensures
            range.start.offset == offset,
            range.end.offset == offset,
    {
        TextRange::new(offset, offset)
    }

    /// Whether the two ends are the same.
    pub fn is_empty(&self) -> (yes: bool)
        ensures
            yes == (self.start.offset == self.end.offset),
    {
        self.start.offset == self.end.offset
    }

    /// How many places lie between the two ends; none if they are the wrong way round.
    pub fn len(&self) -> (length: usize)
        ensures
            length == range_len(self.start.offset, self.end.offset),
    {
        self.end.offset.saturating_sub(self.start.offset)
    }

    /// The range told by its two ends.
    pub fn to_std_range(&self) -> (range: Range<usize>)
        ensures
            range.start == self.start.offset,
            range.end == self.end.offset,
    {
        self.start.offset..self.end.offset
    }
}

impl From<Range<usize>> for TextRange {
    fn from(range: Range<usize>) -> (result: Self) {
        TextRange::new(range.start, range.end)
    }
}

impl vstd::std_specs::convert::FromSpecImpl<Range<usize>> for TextRange {
    open spec fn obeys_from_spec() -> bool {
        true
    }

    open spec fn from_spec(range: Range<usize>) -> Self {
        TextRange {
            start: TextPosition { offset: range.start },
            end: TextPosition { offset: range.end },
        }
    }
}

/// The two ends of a range are told and read back, but of the one place that stands for no range; a
/// range whose ends are the wrong way round holds nothing.
pub proof fn law_ends_read_back(start: usize, end: usize)
    ensures
        start <= end && start != usize::MAX ==> ends_of(told(start, end)) == Some(
            (start as int, end as int),
        ),
        end < start && start != usize::MAX ==> ends_of(told(start, end)) == Some(
            (start as int, start as int),
        ),
        ends_of(told(start, end)) is None <==> start == usize::MAX,
        ends_of(NSRange { location: usize::MAX, length: 0 }) is None,
        start <= end ==> range_len(start, end) == end - start,
        end <= start ==> range_len(start, end) == 0,
{
}

} // verus!
