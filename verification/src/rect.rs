//! Points and rectangles in figure coordinates.
use vstd::prelude::*;

verus! {

/// A point: its `x` and `y` coordinates.
#[derive(Debug, Clone, Copy, PartialEq, Eq, Structural)]
pub struct Point(pub u32, pub u32);

/// A rectangle: its top left corner and its width and height.
#[derive(Debug, Clone, Copy, PartialEq, Eq, Structural)]
pub struct Rect {
    pub location: Point,
    pub dimension: Point,
}

impl Point {
    /// The `x` coordinate.
    pub fn x(self) -> (r: u32)
        ensures
            r == self.0,
    {
        self.0
    }

    /// The `y` coordinate.
    pub fn y(self) -> (r: u32)
        ensures
            r == self.1,
    {
        self.1
    }
}

impl Rect {
    /// The `x` coordinate of the top left corner.
    pub fn x(&self) -> (r: u32)
        ensures
            r == self.location.0,
    {
        self.location.0
    }

    /// The `y` coordinate of the top left corner.
    pub fn y(&self) -> (r: u32)
        ensures
            r == self.location.1,
    {
        self.location.1
    }

    /// The width.
    pub fn w(&self) -> (r: u32)
        ensures
            r == self.dimension.0,
    {
        self.dimension.0
    }

    /// The height.
    pub fn h(&self) -> (r: u32)
        ensures
            r == self.dimension.1,
    {
        self.dimension.1
    }
}

} // verus!
