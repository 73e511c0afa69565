//! Discrete grid geometry: coordinates, headings and single-cell moves.

use vstd::prelude::*;

verus! {

/// Number of columns of the grid.
pub const GRID_WIDTH: i32 = 20;

/// Number of rows of the grid.
pub const GRID_HEIGHT: i32 = 15;

/// A heading on the grid. The vertical axis grows downwards.
#[derive(Debug, Clone, Copy, PartialEq, Eq, Structural)]
pub enum Direction {
    Up,
    Down,
    Left,
    Right,
}

impl Direction {
    /// The heading pointing the other way along the same axis.
    pub open spec fn opposite_spec(self) -> Direction {
        match self {
            Direction::Up => Direction::Down,
            Direction::Down => Direction::Up,
            Direction::Left => Direction::Right,
            Direction::Right => Direction::Left,
        }
    }

    /// Horizontal offset of one step along this heading.
    pub open spec fn dx(self) -> int {
        match self {
            Direction::Left => -1,
            Direction::Right => 1,
            _ => 0,
        }
    }

    /// Vertical offset of one step along this heading.
    pub open spec fn dy(self) -> int {
        match self {
            Direction::Up => -1,
            Direction::Down => 1,
            _ => 0,
        }
    }

    /// The reverse heading; reversing twice gives the heading back, and
    /// no heading is its own reverse.
    pub fn opposite(&self) -> (r: Direction)
        ensures
            r == self.opposite_spec(),
            r.opposite_spec() == *self,
            r != *self,
    {
        match self {
            Direction::Up => Direction::Down,
            Direction::Down => Direction::Up,
            Direction::Left => Direction::Right,
            Direction::Right => Direction::Left,
        }
    }
}

/// A cell of the grid, origin at the top-left corner.
#[derive(Debug, Clone, Copy, PartialEq, Eq, Structural)]
pub struct Position {
    pub x: i32,
    pub y: i32,
}

/// Absolute value of an integer.
pub open spec fn abs(v: int) -> int {
    if v < 0 {
        -v
    } else {
        v
    }
}

/// Two cells share a side: they differ by one in exactly one coordinate.
pub open spec fn adjacent(a: Position, b: Position) -> bool {
    abs(a.x - b.x) + abs(a.y - b.y) == 1
}

impl Position {
    /// The cell lies on the grid.
    pub open spec fn in_grid(self) -> bool {
        0 <= self.x < GRID_WIDTH && 0 <= self.y < GRID_HEIGHT
    }

    /// One step along `d` stays within the range of `i32`.
    pub open spec fn can_step(self, d: Direction) -> bool {
        i32::MIN <= self.x + d.dx() <= i32::MAX && i32::MIN <= self.y + d.dy() <= i32::MAX
    }

    /// The cell one step along `d`.
    pub open spec fn stepped(self, d: Direction) -> Position {
        Position { x: (self.x + d.dx()) as i32, y: (self.y + d.dy()) as i32 }
    }

    pub fn new(x: i32, y: i32) -> (r: Self)
        ensures
            r.x == x,
            r.y == y,
    {
        Self { x, y }
    }

    /// The neighbouring cell along `direction`; no bounds check on the grid.
    pub fn move_in_direction(&self, direction: Direction) -> (r: Self)
        requires
            self.can_step(direction),
        ensures
            r == self.stepped(direction),
            r.x == self.x + direction.dx(),
            r.y == self.y + direction.dy(),
            adjacent(*self, r),
    {
        match direction {
            Direction::Up => Position::new(self.x, self.y - 1),
            Direction::Down => Position::new(self.x, self.y + 1),
            Direction::Left => Position::new(self.x - 1, self.y),
            Direction::Right => Position::new(self.x + 1, self.y),
        }
    }

    /// Whether the cell lies on the grid.
    pub fn is_valid(&self) -> (r: bool)
        ensures
            r == self.in_grid(),
    {
        self.x >= 0 && self.x < GRID_WIDTH && self.y >= 0 && self.y < GRID_HEIGHT
    }
}

/// From any cell of the grid, a move along any heading can be made and
/// reaches a cell that differs by exactly one in exactly one coordinate.
pub proof fn lemma_move_is_adjacent(c: Position, h: Direction)
    requires
        c.in_grid(),
    ensures
        c.can_step(h),
        adjacent(c, c.stepped(h)),
        (c.stepped(h).x == c.x) != (c.stepped(h).y == c.y),
{
}

} // verus!
