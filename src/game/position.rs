use super::direction::Direction;
use vstd::prelude::*;

verus! {

/// A cell of an `X_LIM` by `Y_LIM` grid whose edges wrap around (a torus).
#[derive(Debug, Default, Clone, Copy, Eq)]
pub struct Position<const X_LIM: usize, const Y_LIM: usize> {
    pub x: u8,
    pub y: u8,
}

impl<const X_LIM: usize, const Y_LIM: usize> Position<X_LIM, Y_LIM> {
    /// The grid is non-empty and each coordinate fits in a byte.
    pub open spec fn limits_ok() -> bool {
        0 < X_LIM <= 256 && 0 < Y_LIM <= 256
    }

    /// The cell lies on the grid.
    pub open spec fn wf(&self) -> bool {
        self.x < X_LIM && self.y < Y_LIM
    }

    /// The cell `dx` columns and `dy` rows away, wrapping at the edges.
    pub open spec fn shifted(&self, dx: int, dy: int) -> Self {
        Position {
            x: ((self.x + dx) % (X_LIM as int)) as u8,
            y: ((self.y + dy) % (Y_LIM as int)) as u8,
        }
    }

    /// Size of the grid along the axis that `dir` moves on.
    pub open spec fn axis_limit(dir: Direction) -> int {
        match dir {
            Direction::Left | Direction::Right => X_LIM as int,
            Direction::Up | Direction::Down => Y_LIM as int,
        }
    }

    /// The cell `scale` steps away along `dir`: up is +y, right is +x.
    pub open spec fn shifted_dir(&self, dir: Direction, scale: int) -> Self {
        match dir {
            Direction::Up => self.shifted(0, scale),
            Direction::Down => self.shifted(0, -scale),
            Direction::Left => self.shifted(-scale, 0),
            Direction::Right => self.shifted(scale, 0),
        }
    }

    pub fn new(x: u8, y: u8) -> (r: Self)
        ensures
            r.x == x,
            r.y == y,
    {
        Self { x, y }
    }

    /// Moves by (`x`, `y`); a coordinate that leaves the grid re-enters on the
    /// other side.
    pub fn offset(&self, x: isize, y: isize) -> (r: Self)
        requires
            Self::limits_ok(),
            self.wf(),
            -(X_LIM as int) <= x <= X_LIM,
            -(Y_LIM as int) <= y <= Y_LIM,
        ensures
            r == self.shifted(x as int, y as int),
            r.wf(),
    {
        let xl = X_LIM as isize;
        let yl = Y_LIM as isize;
        let sx = x + (self.x as isize);
        let x = if sx >= xl {
            sx % xl
        } else if sx < 0 {
            xl + sx
        } else {
            sx
        };
        let sy = y + (self.y as isize);
        let y = if sy >= yl {
            sy % yl
        } else if sy < 0 {
            yl + sy
        } else {
            sy
        };
        proof {
            lemma_wrap_coord(sx as int, X_LIM as int);
            lemma_wrap_coord(sy as int, Y_LIM as int);
        }
        Self { x: x as u8, y: y as u8 }
    }

    pub fn offset_dir(&self, dir: Direction) -> (r: Self)
        requires
            Self::limits_ok(),
            self.wf(),
        ensures
            r == self.shifted_dir(dir, 1),
            r.wf(),
    {
        self.offset_dir_scaled(dir, 1)
    }

    /// Moves `scale` cells along `dir` (backwards when `scale` is negative).
    pub fn offset_dir_scaled(&self, dir: Direction, scale: isize) -> (r: Self)
        requires
            Self::limits_ok(),
            self.wf(),
            -Self::axis_limit(dir) <= scale <= Self::axis_limit(dir),
        ensures
            r == self.shifted_dir(dir, scale as int),
            r.wf(),
    {
        match dir {
            Direction::Up => self.offset(0, scale),
            Direction::Down => self.offset(0, -scale),
            Direction::Left => self.offset(-scale, 0),
            Direction::Right => self.offset(scale, 0),
        }
    }

    /// Any offset no longer than the grid lands on the grid.
    pub proof fn lemma_offset_stays_on_grid(&self, dx: int, dy: int)
        requires
            Self::limits_ok(),
            self.wf(),
            -(X_LIM as int) <= dx <= X_LIM,
            -(Y_LIM as int) <= dy <= Y_LIM,
        ensures
            self.shifted(dx, dy).wf(),
    {
        lemma_wrap_coord(self.x + dx, X_LIM as int);
        lemma_wrap_coord(self.y + dy, Y_LIM as int);
    }

    /// Going once round the torus, in any of the four directions, comes back
    /// to the starting cell.
    pub proof fn lemma_offset_full_turn(&self)
        requires
            Self::limits_ok(),
            self.wf(),
        ensures
            self.shifted(X_LIM as int, 0) == *self,
            self.shifted(-(X_LIM as int), 0) == *self,
            self.shifted(0, Y_LIM as int) == *self,
            self.shifted(0, -(Y_LIM as int)) == *self,
    {
        lemma_wrap_coord(self.x + X_LIM, X_LIM as int);
        lemma_wrap_coord(self.x - X_LIM, X_LIM as int);
        lemma_wrap_coord(self.y + Y_LIM, Y_LIM as int);
        lemma_wrap_coord(self.y - Y_LIM, Y_LIM as int);
        lemma_wrap_coord(self.x as int, X_LIM as int);
        lemma_wrap_coord(self.y as int, Y_LIM as int);
    }

    pub fn x(&self) -> (r: u8)
        ensures
            r == self.x,
    {
        self.x
    }

    pub fn y(&self) -> (r: u8)
        ensures
            r == self.y,
    {
        self.y
    }
}

impl<const X_LIM: usize, const Y_LIM: usize> PartialEq for Position<X_LIM, Y_LIM> {
    fn eq(&self, other: &Self) -> (r: bool) {
        self.x == other.x && self.y == other.y
    }
}

impl<const X_LIM: usize, const Y_LIM: usize> vstd::std_specs::cmp::PartialEqSpecImpl for Position<X_LIM, Y_LIM> {
    open spec fn obeys_eq_spec() -> bool {
        true
    }

    open spec fn eq_spec(&self, other: &Self) -> bool {
        self.x == other.x && self.y == other.y
    }
}

proof fn lemma_wrap_coord(v: int, lim: int)
    requires
        0 < lim,
        -lim <= v < 2 * lim,
    ensures
        v % lim == if v >= lim {
            v - lim
        } else if v < 0 {
            lim + v
        } else {
            v
        },
        0 <= v % lim < lim,
{
    if v < 0 {
        crate::game::ringbuffer::lemma_mod_wrap_once(v + lim, lim);
        vstd::arithmetic::div_mod::lemma_mod_add_multiples_vanish(v, lim);
    } else {
        crate::game::ringbuffer::lemma_mod_wrap_once(v, lim);
    }
}

} // verus!
