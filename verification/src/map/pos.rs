use crate::fixed::FP_ONE;
use vstd::prelude::*;

verus! {

/// A continuous position in grid units, held as fixed-point
/// coordinates: one cell spans `FP_ONE` units on each axis.
#[derive(Clone, Copy, PartialEq, Eq, Structural, Debug)]
pub struct Pos {
    pub x: i64,
    pub y: i64,
}

/// The grid column or row that a fixed-point coordinate falls in:
/// truncation toward zero, with everything left of the map clamped to
/// column zero, as a saturating float-to-unsigned cast would do.
pub open spec fn cell_of(c: int) -> int {
    if c < 0 {
        0
    } else {
        c / (FP_ONE as int)
    }
}

impl Pos {
    pub fn new(x: i64, y: i64) -> (r: Pos)
        ensures
            r.x == x,
            r.y == y,
    {
        Pos { x, y }
    }

    pub fn x(&self) -> (r: i64)
        ensures
            r == self.x,
    {
        self.x
    }

    pub fn y(&self) -> (r: i64)
        ensures
            r == self.y,
    {
        self.y
    }

    /// The spot on the discrete grid that this continuous position
    /// falls in.
    pub open spec fn map_spec(&self) -> MapPos {
        MapPos { x: cell_of(self.x as int) as usize, y: cell_of(self.y as int) as usize }
    }

    /// Converts to integer grid coordinates by truncation.
    pub fn map(&self) -> (r: MapPos)
        ensures
            r == self.map_spec(),
    {
        let x = if self.x < 0 {
            0
        } else {
            (self.x / FP_ONE) as usize
        };
        let y = if self.y < 0 {
            0
        } else {
            (self.y / FP_ONE) as usize
        };
        MapPos { x, y }
    }

    /// Componentwise vector addition.
    pub fn add(self, other: Pos) -> (r: Pos)
        requires
            i64::MIN <= self.x + other.x <= i64::MAX,
            i64::MIN <= self.y + other.y <= i64::MAX,
        ensures
            r.x == self.x + other.x,
            r.y == self.y + other.y,
    {
        Pos { x: self.x + other.x, y: self.y + other.y }
    }

    /// Componentwise vector subtraction.
    pub fn sub(self, other: Pos) -> (r: Pos)
        requires
            i64::MIN <= self.x - other.x <= i64::MAX,
            i64::MIN <= self.y - other.y <= i64::MAX,
        ensures
            r.x == self.x - other.x,
            r.y == self.y - other.y,
    {
        Pos { x: self.x - other.x, y: self.y - other.y }
    }
}

/// A discrete grid cell.
#[derive(Clone, Copy, PartialEq, Eq, Structural, Debug, Hash)]
pub struct MapPos {
    pub x: usize,
    pub y: usize,
}

impl MapPos {
    pub fn new(x: usize, y: usize) -> (r: MapPos)
        ensures
            r.x == x,
            r.y == y,
    {
        MapPos { x, y }
    }

    pub fn x(&self) -> (r: usize)
        ensures
            r == self.x,
    {
        self.x
    }

    pub fn y(&self) -> (r: usize)
        ensures
            r == self.y,
    {
        self.y
    }

    /// The continuous position of this cell's top-left corner.
    pub fn to_pos(&self) -> (r: Pos)
        requires
            self.x <= 1000,
            self.y <= 1000,
        ensures
            r.x == self.x * FP_ONE,
            r.y == self.y * FP_ONE,
    {
        Pos { x: (self.x as i64) * FP_ONE, y: (self.y as i64) * FP_ONE }
    }
}

} // verus!
