//! Grid coordinates, directions and the rotation / flip transform of a
//! circuit's footprint.

use vstd::prelude::*;

verus! {

/// A position or a size on the grid, in whole cells.
#[derive(Debug, Clone, Copy, PartialEq, Eq, Structural)]
pub struct Vec2usize {
    pub x: usize,
    pub y: usize,
}

impl Vec2usize {
    pub fn new(x: usize, y: usize) -> (r: Self)
        ensures
            r.x == x,
            r.y == y,
    {
        Vec2usize { x, y }
    }

    pub open spec fn swap_spec(self) -> Vec2usize {
        Vec2usize { x: self.y, y: self.x }
    }

    /// The same vector with its two axes exchanged.
    pub fn swapped(self) -> (r: Self)
        ensures
            r == self.swap_spec(),
    {
        Vec2usize { x: self.y, y: self.x }
    }
}

/// A position on the unbounded grid.
#[derive(Debug, Clone, Copy, PartialEq, Eq, Structural)]
pub struct Vec2isize {
    pub x: isize,
    pub y: isize,
}

/// `p` lies inside a footprint of the given size.
pub open spec fn in_bounds(p: Vec2usize, size: Vec2usize) -> bool {
    p.x < size.x && p.y < size.y
}

/// One of the four axis directions, listed counter-clockwise from `Up`.
#[derive(Debug, Clone, Copy, PartialEq, Eq, Structural)]
pub enum Direction4 {
    Up,
    Left,
    Down,
    Right,
}

impl Direction4 {
    /// Number of counter-clockwise quarter turns from `Up`.
    pub open spec fn quarters(self) -> int {
        match self {
            Direction4::Up => 0,
            Direction4::Left => 1,
            Direction4::Down => 2,
            Direction4::Right => 3,
        }
    }

    /// The direction `k` counter-clockwise quarter turns from `Up` (any `k`).
    pub open spec fn from_quarters(k: int) -> Direction4 {
        let m = k % 4;
        if m == 0 {
            Direction4::Up
        } else if m == 1 {
            Direction4::Left
        } else if m == 2 {
            Direction4::Down
        } else {
            Direction4::Right
        }
    }

    pub open spec fn is_vertical_spec(self) -> bool {
        self == Direction4::Up || self == Direction4::Down
    }

    pub fn is_vertical(self) -> (r: bool)
        ensures
            r == self.is_vertical_spec(),
    {
        match self {
            Direction4::Up | Direction4::Down => true,
            _ => false,
        }
    }

    fn quarter_count(self) -> (r: u8)
        ensures
            r as int == self.quarters(),
    {
        match self {
            Direction4::Up => 0,
            Direction4::Left => 1,
            Direction4::Down => 2,
            Direction4::Right => 3,
        }
    }

    fn of_quarter_count(k: u8) -> (r: Direction4)
        ensures
            r == Direction4::from_quarters(k as int),
    {
        let m = k % 4;
        if m == 0 {
            Direction4::Up
        } else if m == 1 {
            Direction4::Left
        } else if m == 2 {
            Direction4::Down
        } else {
            Direction4::Right
        }
    }

    /// The turn that takes `base` to `self`.
    pub open spec fn relative_to_spec(self, base: Direction4) -> Direction4 {
        Direction4::from_quarters(self.quarters() - base.quarters())
    }

    /// The rotation, counted counter-clockwise, that takes `base` to `self`.
    pub fn rotated_counterclockwise_by(self, base: Direction4) -> (r: Direction4)
        ensures
            r == self.relative_to_spec(base),
    {
        let k = self.quarter_count() + 4 - base.quarter_count();
        let r = Direction4::of_quarter_count(k);
        assert(r == self.relative_to_spec(base)) by {
            assert((k as int) % 4 == (self.quarters() - base.quarters()) % 4);
        }
        r
    }
}

/// One of the eight compass directions, listed counter-clockwise from `Up`.
#[derive(Debug, Clone, Copy, PartialEq, Eq, Structural)]
pub enum Direction8 {
    Up,
    UpLeft,
    Left,
    DownLeft,
    Down,
    DownRight,
    Right,
    UpRight,
}

impl Direction8 {
    /// Number of counter-clockwise eighth turns from `Up`.
    pub open spec fn eighths(self) -> int {
        match self {
            Direction8::Up => 0,
            Direction8::UpLeft => 1,
            Direction8::Left => 2,
            Direction8::DownLeft => 3,
            Direction8::Down => 4,
            Direction8::DownRight => 5,
            Direction8::Right => 6,
            Direction8::UpRight => 7,
        }
    }

    /// The direction `k` counter-clockwise eighth turns from `Up` (any `k`).
    pub open spec fn from_eighths(k: int) -> Direction8 {
        let m = k % 8;
        if m == 0 {
            Direction8::Up
        } else if m == 1 {
            Direction8::UpLeft
        } else if m == 2 {
            Direction8::Left
        } else if m == 3 {
            Direction8::DownLeft
        } else if m == 4 {
            Direction8::Down
        } else if m == 5 {
            Direction8::DownRight
        } else if m == 6 {
            Direction8::Right
        } else {
            Direction8::UpRight
        }
    }

    fn eighth_count(self) -> (r: u8)
        ensures
            r as int == self.eighths(),
    {
        match self {
            Direction8::Up => 0,
            Direction8::UpLeft => 1,
            Direction8::Left => 2,
            Direction8::DownLeft => 3,
            Direction8::Down => 4,
            Direction8::DownRight => 5,
            Direction8::Right => 6,
            Direction8::UpRight => 7,
        }
    }

    fn of_eighth_count(k: u8) -> (r: Direction8)
        ensures
            r == Direction8::from_eighths(k as int),
    {
        let m = k % 8;
        if m == 0 {
            Direction8::Up
        } else if m == 1 {
            Direction8::UpLeft
        } else if m == 2 {
            Direction8::Left
        } else if m == 3 {
            Direction8::DownLeft
        } else if m == 4 {
            Direction8::Down
        } else if m == 5 {
            Direction8::DownRight
        } else if m == 6 {
            Direction8::Right
        } else {
            Direction8::UpRight
        }
    }

    /// Mirror image across the horizontal axis: `Up` and `Down` trade places.
    pub open spec fn mirrored_vertically_spec(self) -> Direction8 {
        Direction8::from_eighths(4 - self.eighths())
    }

    /// Mirror image across the vertical axis: `Left` and `Right` trade places.
    pub open spec fn mirrored_horizontally_spec(self) -> Direction8 {
        Direction8::from_eighths(8 - self.eighths())
    }

    pub open spec fn inverted_spec(self) -> Direction8 {
        Direction8::from_eighths(self.eighths() + 4)
    }

    pub open spec fn rotated_spec(self, by: Direction4) -> Direction8 {
        Direction8::from_eighths(self.eighths() + 2 * by.quarters())
    }

    pub fn mirrored_vertically(self) -> (r: Direction8)
        ensures
            r == self.mirrored_vertically_spec(),
    {
        Direction8::of_eighth_count(12 - self.eighth_count())
    }

    pub fn mirrored_horizontally(self) -> (r: Direction8)
        ensures
            r == self.mirrored_horizontally_spec(),
    {
        Direction8::of_eighth_count(8 - self.eighth_count())
    }

    /// The opposite direction.
    pub fn inverted(self) -> (r: Direction8)
        ensures
            r == self.inverted_spec(),
    {
        Direction8::of_eighth_count(self.eighth_count() + 4)
    }

    /// Rotated counter-clockwise by as many quarter turns as `by` is from `Up`.
    pub fn rotated_counterclockwise_by(self, by: Direction4) -> (r: Direction8)
        ensures
            r == self.rotated_spec(by),
    {
        Direction8::of_eighth_count(self.eighth_count() + 2 * by.quarter_count())
    }
}

} // verus!
