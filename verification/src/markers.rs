//! A collection of markers that get overlaid onto the signal diagram.
use vstd::prelude::*;

use crate::cycle_offset::CycleOffset;

verus! {

/// A marker for a group of lines.
///
/// This is usually displayed on the left of the signal and can group any sequential lines
/// `start..end`. It can include a potential label. There is also a depth value for when groups are
/// nested. The depth value starts from `0`.
#[derive(Debug, Clone, Copy)]
pub struct GroupMarker<'a> {
    start: u32,
    end: u32,
    label: Option<&'a str>,
    depth: u32,
}

/// The edge of a clock cycle.
#[derive(Clone, Copy, Debug, PartialEq, Eq, Structural)]
pub enum ClockEdge {
    /// Low to High to Low.
    Positive,
    /// High to Low to High.
    Negative,
}

/// The enumeration above or below signals indicating the number of the current cycle.
///
/// The enumeration starts at `start` with steps of `every`. The marker contains `start,
/// start+every, start+2*every, ...` until the diagram cycle count is reached.
#[derive(Debug, Clone, Copy, PartialEq, Eq, Structural)]
pub struct CycleEnumerationMarker {
    start: u32,
    every: u32,
}

/// An arrow illustrating where a clock edge is happening.
#[derive(Debug, Clone, Copy)]
pub struct ClockEdgeMarker {
    at: CycleOffset,
    edge: ClockEdge,
}

impl<'a> GroupMarker<'a> {
    /// The first line captured by the marker.
    pub closed spec fn spec_start(&self) -> u32 {
        self.start
    }

    /// One past the last line captured by the marker.
    pub closed spec fn spec_end(&self) -> u32 {
        self.end
    }

    /// The label of the marker.
    pub closed spec fn spec_label(&self) -> Option<Seq<char>> {
        match self.label {
            Some(l) => Some(l@),
            None => None,
        }
    }

    /// The nesting depth of the marker.
    pub closed spec fn spec_depth(&self) -> u32 {
        self.depth
    }

    /// Create a new [`GroupMarker`] capturing lines `start..end`.
    pub fn new(start: u32, end: u32, label: Option<&'a str>, depth: u32) -> (r: GroupMarker<'a>)
        ensures
            r.spec_start() == start,
            r.spec_end() == end,
            r.spec_depth() == depth,
            r.spec_label() == (match label {
                Some(l) => Some(l@),
                None => None,
            }),
    {
        GroupMarker { start, end, label, depth }
    }

    /// Returns the amount of lines captured by the [`GroupMarker`].
    pub fn len(&self) -> (r: u32)
        requires
            self.spec_start() <= self.spec_end(),
        ensures
            r == self.spec_end() - self.spec_start(),
    {
        self.end - self.start
    }

    /// Returns whether no lines are captured by a [`GroupMarker`].
    pub fn is_empty(&self) -> (r: bool)
        ensures
            r == (self.spec_start() == self.spec_end()),
    {
        self.start == self.end
    }

    /// Returns the optional label of a [`GroupMarker`].
    pub fn label(&self) -> (r: Option<&str>)
        ensures
            match r {
                Some(l) => self.spec_label() == Some(l@),
                None => self.spec_label().is_none(),
            },
    {
        self.label
    }

    /// Returns the nested depth of a [`GroupMarker`] starting from `0`.
    pub fn depth(&self) -> (r: u32)
        ensures
            r == self.spec_depth(),
    {
        self.depth
    }

    /// Returns the `start` value of the [`GroupMarker`] that captures `start..end`.
    pub fn start(&self) -> (r: u32)
        ensures
            r == self.spec_start(),
    {
        self.start
    }

    /// Returns the `end` value of the [`GroupMarker`] that captures `start..end`.
    pub fn end(&self) -> (r: u32)
        ensures
            r == self.spec_end(),
    {
        self.end
    }
}

impl ClockEdge {
    /// Returns `true` if the [`ClockEdge`] is a [`ClockEdge::Positive`] value.
    pub fn is_positive(self) -> (r: bool)
        ensures
            r == (self == ClockEdge::Positive),
    {
        match self {
            ClockEdge::Positive => true,
            ClockEdge::Negative => false,
        }
    }

    /// Returns `true` if the [`ClockEdge`] is a [`ClockEdge::Negative`] value.
    pub fn is_negative(self) -> (r: bool)
        ensures
            r == (self == ClockEdge::Negative),
    {
        match self {
            ClockEdge::Positive => false,
            ClockEdge::Negative => true,
        }
    }
}

impl CycleEnumerationMarker {
    /// The first numbered cycle.
    pub closed spec fn spec_start(self) -> u32 {
        self.start
    }

    /// The step between numbered cycles.
    pub closed spec fn spec_every(self) -> u32 {
        self.every
    }

    /// Create a new [`CycleEnumerationMarker`] where the enumeration starts at `start` and
    /// `start, start+every, start+2*every, ..` are numbered.
    ///
    /// To number all the cycles, utilize a value of `every` equal to `0` or `1`.
    pub fn new(start: u32, every: u32) -> (r: CycleEnumerationMarker)
        ensures
            r.spec_start() == start,
            r.spec_every() == if every == 0 {
                1
            } else {
                every
            },
    {
        let every = if every < 1 {
            1
        } else {
            every
        };
        CycleEnumerationMarker { start, every }
    }

    /// Return the cycle number for the first numbered cycle.
    pub fn start(self) -> (r: u32)
        ensures
            r == self.spec_start(),
    {
        self.start
    }

    /// Return every how manyth cycle is numbered.
    pub fn every(self) -> (r: u32)
        ensures
            r == self.spec_every(),
            r >= 1,
    {
        proof {
            use_type_invariant(&self);
        }
        self.every
    }

    /// The step of a marker is never zero.
    #[verifier::type_invariant]
    closed spec fn wf(self) -> bool {
        self.every >= 1
    }
}

impl ClockEdgeMarker {
    /// The position of the marker.
    pub closed spec fn spec_at(self) -> CycleOffset {
        self.at
    }

    /// The edge that the marker represents.
    pub closed spec fn spec_edge(self) -> ClockEdge {
        self.edge
    }

    /// Create a new [`ClockEdgeMarker`] at `at`, representing `edge`.
    pub fn new(at: CycleOffset, edge: ClockEdge) -> (r: ClockEdgeMarker)
        ensures
            r.spec_at() == at,
            r.spec_edge() == edge,
    {
        ClockEdgeMarker { at, edge }
    }

    /// Returns where in the line the [`ClockEdgeMarker`] is positioned.
    pub fn at(&self) -> (r: CycleOffset)
        ensures
            r == self.spec_at(),
    {
        self.at
    }

    /// Returns which edge the [`ClockEdgeMarker`] represents.
    pub fn edge(&self) -> (r: ClockEdge)
        ensures
            r == self.spec_edge(),
    {
        self.edge
    }
}

} // verus!
