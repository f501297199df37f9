use vstd::prelude::*;

verus! {

/// A direction of travel between two orthogonally adjacent grid cells.
#[derive(Copy, Clone, Debug, PartialEq, Eq, Structural)]
pub enum Direction {
    Left,
    Up,
    Right,
    Down,
}

/// The reverse of a direction.
pub open spec fn opposite_of(d: Direction) -> Direction {
    match d {
        Direction::Left => Direction::Right,
        Direction::Right => Direction::Left,
        Direction::Up => Direction::Down,
        Direction::Down => Direction::Up,
    }
}

impl Direction {
    pub fn opposite(&self) -> (r: Self)
        ensures
            r == opposite_of(*self),
    {
        match self {
            Direction::Left => Direction::Right,
            Direction::Right => Direction::Left,
            Direction::Up => Direction::Down,
            Direction::Down => Direction::Up,
        }
    }
}

/// A grid coordinate. `x` grows rightward, `y` grows downward.
#[derive(Copy, Clone, Debug, PartialEq, Eq, Structural)]
pub struct Position {
    pub x: usize,
    pub y: usize,
}

/// `p` lies inside a `width` by `height` grid.
pub open spec fn in_bounds(p: Position, width: int, height: int) -> bool {
    p.x < width && p.y < height
}

/// `a` and `b` differ by one step along exactly one axis.
pub open spec fn adjacent(a: Position, b: Position) -> bool {
    ||| a.x == b.x && (a.y + 1 == b.y || b.y + 1 == a.y)
    ||| a.y == b.y && (a.x + 1 == b.x || b.x + 1 == a.x)
}

/// The coordinate one step from `p` in direction `d` (meaningful only when
/// the step stays non-negative and within `usize`).
pub open spec fn step_to(p: Position, d: Direction) -> Position {
    match d {
        Direction::Left => Position { x: (p.x - 1) as usize, y: p.y },
        Direction::Up => Position { x: p.x, y: (p.y - 1) as usize },
        Direction::Right => Position { x: (p.x + 1) as usize, y: p.y },
        Direction::Down => Position { x: p.x, y: (p.y + 1) as usize },
    }
}

/// The direction of travel from `a` to an adjacent position `b`.
pub open spec fn dir_between(a: Position, b: Position) -> Direction {
    if a.x == b.x {
        if b.y == a.y + 1 {
            Direction::Down
        } else {
            Direction::Up
        }
    } else {
        if b.x == a.x + 1 {
            Direction::Right
        } else {
            Direction::Left
        }
    }
}

impl Default for Position {
    fn default() -> (p: Self)
        ensures
            p == (Position { x: 0, y: 0 }),
    {
        Position { x: 0, y: 0 }
    }
}

impl Position {
    pub fn left(&self) -> (p: Self)
        requires
            self.x >= 1,
        ensures
            p == step_to(*self, Direction::Left),
    {
        Position { x: self.x - 1, y: self.y }
    }

    pub fn up(&self) -> (p: Self)
        requires
            self.y >= 1,
        ensures
            p == step_to(*self, Direction::Up),
    {
        Position { x: self.x, y: self.y - 1 }
    }

    pub fn right(&self) -> (p: Self)
        requires
            self.x < usize::MAX,
        ensures
            p == step_to(*self, Direction::Right),
    {
        Position { x: self.x + 1, y: self.y }
    }

    pub fn down(&self) -> (p: Self)
        requires
            self.y < usize::MAX,
        ensures
            p == step_to(*self, Direction::Down),
    {
        Position { x: self.x, y: self.y + 1 }
    }

    /// The direction of travel from `self` to the adjacent position `other`.
    pub fn relative_to(&self, other: &Self) -> (d: Direction)
        requires
            adjacent(*self, *other),
        ensures
            d == dir_between(*self, *other),
            *other == step_to(*self, d),
    {
        if self.x == other.x {
            if self.y < other.y {
                Direction::Down
            } else {
                Direction::Up
            }
        } else {
            if self.x < other.x {
                Direction::Right
            } else {
                Direction::Left
            }
        }
    }

    /// The position one step from `self` in direction `d`.
    pub fn to_the(&self, d: Direction) -> (p: Self)
        requires
            d == Direction::Left ==> self.x >= 1,
            d == Direction::Up ==> self.y >= 1,
            d == Direction::Right ==> self.x < usize::MAX,
            d == Direction::Down ==> self.y < usize::MAX,
        ensures
            p == step_to(*self, d),
            adjacent(*self, p),
    {
        match d {
            Direction::Right => Position { x: self.x + 1, y: self.y },
            Direction::Left => Position { x: self.x - 1, y: self.y },
            Direction::Down => Position { x: self.x, y: self.y + 1 },
            Direction::Up => Position { x: self.x, y: self.y - 1 },
        }
    }
}

/// Travelling back from `b` to an adjacent `a` reverses the direction that
/// led from `a` to `b`.
pub proof fn lemma_dir_symmetric(a: Position, b: Position)
    requires
        adjacent(a, b),
    ensures
        dir_between(b, a) == opposite_of(dir_between(a, b)),
{
}

/// A move out of `b` that reverses the move `a` -> `b` lands back on `a`:
/// the only departure direction `resolve` rejects is the one that would
/// revisit the previous cell.
pub proof fn lemma_reversal_returns(a: Position, b: Position, c: Position)
    requires
        adjacent(a, b),
        adjacent(b, c),
        dir_between(b, c) == opposite_of(dir_between(a, b)),
    ensures
        c == a,
{
}

} // verus!
