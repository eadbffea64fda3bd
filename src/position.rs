use vstd::prelude::*;

verus! {

/// An integer cell coordinate on the grid.
#[derive(Clone, Copy, Debug, PartialEq, Eq, Structural)]
pub struct Position {
    pub x: i32,
    pub y: i32,
}

/// Whether `a + b` fits in an `i32`.
pub open spec fn fits_i32(v: int) -> bool {
    i32::MIN <= v <= i32::MAX
}

impl Position {
    /// Whether offsetting `self` by `other` stays representable.
    pub open spec fn can_offset(self, other: Position) -> bool {
        fits_i32(self.x + other.x) && fits_i32(self.y + other.y)
    }

    pub fn new(x: i32, y: i32) -> (r: Position)
        ensures
            r.x == x,
            r.y == y,
    {
        Position { x, y }
    }

    pub fn to_tuple(&self) -> (r: (i32, i32))
        ensures
            r == (self.x, self.y),
    {
        (self.x, self.y)
    }

    /// The position moved by the vector `pos`.
    pub fn offset(&self, pos: &Position) -> (r: Position)
        requires
            self.can_offset(*pos),
        ensures
            r.x == self.x + pos.x,
            r.y == self.y + pos.y,
    {
        Position { x: self.x + pos.x, y: self.y + pos.y }
    }
}

impl Default for Position {
    fn default() -> (r: Position)
        ensures
            r.x == 0 && r.y == 0,
    {
        Position { x: 0, y: 0 }
    }
}

} // verus!
