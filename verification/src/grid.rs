//! Cells of the grid and the four directions of a step.

use vstd::prelude::*;

verus! {

/// A cell of the unbounded grid, as contracts speak of it.
pub struct Cell {
    pub x: int,
    pub y: int,
}

/// One of the four one-cell displacements.
#[derive(Clone, Copy, Debug, PartialEq, Eq, Structural)]
pub enum Direction {
    North,
    South,
    East,
    West,
}

/// A cell of the grid, as the machine holds it. The coordinates are wide enough for every
/// cell of a level of any size, and for every cell that a game can reach from it.
#[derive(Clone, Copy, Debug, PartialEq, Eq, Hash, Structural)]
pub struct Coordinate {
    pub x: i128,
    pub y: i128,
}

impl Direction {
    /// The displacement along the x axis.
    pub open spec fn dx(self) -> int {
        match self {
            Direction::East => 1,
            Direction::West => -1,
            _ => 0,
        }
    }

    /// The displacement along the y axis.
    pub open spec fn dy(self) -> int {
        match self {
            Direction::North => 1,
            Direction::South => -1,
            _ => 0,
        }
    }

    /// The displacement as a pair of machine integers, x first.
    pub fn delta(self) -> (d: (i128, i128))
        ensures
            d.0 == self.dx(),
            d.1 == self.dy(),
    {
        match self {
            Direction::North => (0, 1),
            Direction::South => (0, -1),
            Direction::East => (1, 0),
            Direction::West => (-1, 0),
        }
    }
}

impl Cell {
    /// The neighbouring cell one step away in direction `d`.
    pub open spec fn step(self, d: Direction) -> Cell {
        Cell { x: self.x + d.dx(), y: self.y + d.dy() }
    }

    /// Whether both coordinates fit in a machine coordinate.
    pub open spec fn representable(self) -> bool {
        i128::MIN <= self.x <= i128::MAX && i128::MIN <= self.y <= i128::MAX
    }
}

impl View for Coordinate {
    type V = Cell;

    open spec fn view(&self) -> Cell {
        Cell { x: self.x as int, y: self.y as int }
    }
}

impl Coordinate {
    /// Whether the machine can hold the neighbouring cell in direction `d`.
    pub fn can_step(self, d: Direction) -> (b: bool)
        ensures
            b == self@.step(d).representable(),
    {
        match d {
            Direction::North => self.y < i128::MAX,
            Direction::South => self.y > i128::MIN,
            Direction::East => self.x < i128::MAX,
            Direction::West => self.x > i128::MIN,
        }
    }

    /// The neighbouring cell one step away in direction `d`.
    pub fn step(self, d: Direction) -> (c: Coordinate)
        requires
            self@.step(d).representable(),
        ensures
            c@ == self@.step(d),
    {
        let (dx, dy) = d.delta();
        Coordinate { x: self.x + dx, y: self.y + dy }
    }
}

/// The cells that a list of machine coordinates names, in order.
pub open spec fn cells_of(v: Seq<Coordinate>) -> Seq<Cell> {
    Seq::new(v.len(), |i: int| v[i]@)
}

} // verus!
