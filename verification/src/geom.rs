//! Integer geometry: coordinates, offsets, sizes and rectangles.

use vstd::prelude::*;

verus! {

/// A position in pixel space
#[derive(Clone, Copy, Debug, PartialEq, Eq, Structural)]
pub struct Coord(pub i32, pub i32);

/// A relative position (difference of two coordinates)
#[derive(Clone, Copy, Debug, PartialEq, Eq, Structural)]
pub struct Offset(pub i32, pub i32);

/// A size in pixels
#[derive(Clone, Copy, Debug, PartialEq, Eq, Structural)]
pub struct Size(pub i32, pub i32);

/// An axis-aligned rectangle: a position and a size
#[derive(Clone, Copy, Debug, PartialEq, Eq, Structural)]
pub struct Rect {
    pub pos: Coord,
    pub size: Size,
}

impl Rect {
    /// Construct from position and size
    pub fn new(pos: Coord, size: Size) -> (r: Rect)
        ensures
            r.pos == pos,
            r.size == size,
    {
        Rect { pos, size }
    }
}

} // verus!

verus! {

/// Integer division rounding towards zero, as Rust's `/` does
pub open spec fn div_trunc(a: int, b: int) -> int {
    if a >= 0 {
        a / b
    } else {
        -((-a) / b)
    }
}

/// `x` clamped to `min..=max`
pub open spec fn clamp(x: int, min: int, max: int) -> int {
    if x < min {
        min
    } else if x > max {
        max
    } else {
        x
    }
}

/// A direction of layout: the axis and the order of items along it
#[derive(Clone, Copy, Debug, PartialEq, Eq, Structural)]
pub enum Direction {
    Right,
    Down,
    Left,
    Up,
}

impl Direction {
    /// True for `Up` and `Down`
    pub open spec fn spec_is_vertical(self) -> bool {
        self == Direction::Up || self == Direction::Down
    }

    /// True for `Left` and `Up`
    pub open spec fn spec_is_reversed(self) -> bool {
        self == Direction::Left || self == Direction::Up
    }

    /// True if the direction is vertical
    pub fn is_vertical(self) -> (r: bool)
        ensures
            r == self.spec_is_vertical(),
    {
        matches!(self, Direction::Up | Direction::Down)
    }

    /// True if the direction is horizontal
    pub fn is_horizontal(self) -> (r: bool)
        ensures
            r == !self.spec_is_vertical(),
    {
        matches!(self, Direction::Left | Direction::Right)
    }

    /// True if items are ordered against the axis (`Left`, `Up`)
    pub fn is_reversed(self) -> (r: bool)
        ensures
            r == self.spec_is_reversed(),
    {
        matches!(self, Direction::Left | Direction::Up)
    }
}

} // verus!
