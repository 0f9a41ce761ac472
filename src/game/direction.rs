use vstd::prelude::*;

verus! {

/// One of the four compass headings on the grid.
#[derive(Debug, Clone, Copy, PartialEq, Eq, Structural)]
pub enum Direction {
    Up,
    Down,
    Left,
    Right,
}

/// The heading that points the other way.
pub open spec fn opposite(d: Direction) -> Direction {
    match d {
        Direction::Up => Direction::Down,
        Direction::Down => Direction::Up,
        Direction::Left => Direction::Right,
        Direction::Right => Direction::Left,
    }
}

/// The heading numbered `i`: 0 is up, 1 down, 2 left, 3 right.
pub open spec fn dir_of_index(i: int) -> Direction {
    if i == 0 {
        Direction::Up
    } else if i == 1 {
        Direction::Down
    } else if i == 2 {
        Direction::Left
    } else {
        Direction::Right
    }
}

impl Direction {
    /// The heading numbered `i`; each of the four numbers gives another one.
    pub fn from_index(i: u8) -> (r: Self)
        requires
            i < 4,
        ensures
            r == dir_of_index(i as int),
    {
        if i == 0 {
            Direction::Up
        } else if i == 1 {
            Direction::Down
        } else if i == 2 {
            Direction::Left
        } else {
            Direction::Right
        }
    }

    pub fn get_opposite(&self) -> (r: Self)
        ensures
            r == opposite(*self),
    {
        match self {
            Direction::Up => Direction::Down,
            Direction::Down => Direction::Up,
            Direction::Left => Direction::Right,
            Direction::Right => Direction::Left,
        }
    }

    pub fn is_opposing(&self, rhs: Self) -> (r: bool)
        ensures
            r == (rhs == opposite(*self)),
    {
        self.get_opposite() == rhs
    }
}

/// Turning around twice gives back the heading one started with.
pub proof fn lemma_opposite_involution(d: Direction)
    ensures
        opposite(opposite(d)) == d,
{
}

/// `a` opposes `b` exactly when `b` opposes `a`.
pub proof fn lemma_opposing_symmetric(a: Direction, b: Direction)
    ensures
        (b == opposite(a)) == (a == opposite(b)),
{
}

} // verus!
