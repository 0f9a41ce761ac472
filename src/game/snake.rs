use super::direction::{opposite, Direction};
use super::position::Position;
use super::ringbuffer::{RingBuffer, RingBufferIter};
use vstd::prelude::*;

verus! {

/// The snake: its cells from tail (front of `body`) to head (back of `body`),
/// its heading, and the cell it vacated last.
#[derive(Debug)]
pub struct Snake<const SNAKE_LEN: usize, const X_LIM: usize, const Y_LIM: usize> {
    pub body: RingBuffer<Position<X_LIM, Y_LIM>, SNAKE_LEN>,
    pub current_dir: Direction,
    pub snake_tail: Position<X_LIM, Y_LIM>,
}

/// What one step of the snake led to.
#[derive(Debug, Clone, Copy, PartialEq, Eq, Structural)]
pub enum MovementResult {
    BitSelf,
    Moving,
    AteApple,
    AteAppleAndMaxed,
}

/// The heading actually taken when `requested` is asked for while moving
/// along `current`: a U-turn is ignored and the snake keeps going straight.
pub open spec fn resolve_dir(current: Direction, requested: Direction) -> Direction {
    if requested == opposite(current) {
        current
    } else {
        requested
    }
}

/// No cell occurs twice in `cells`.
pub open spec fn all_distinct<A>(cells: Seq<A>) -> bool {
    forall|i: int, j: int| 0 <= i < j < cells.len() ==> cells[i] != cells[j]
}

proof fn lemma_mod_distinct(a: int, b: int, m: int)
    requires
        0 < m,
        a < b < a + m,
    ensures
        a % m != b % m,
{
    vstd::arithmetic::div_mod::lemma_fundamental_div_mod(a, m);
    vstd::arithmetic::div_mod::lemma_fundamental_div_mod(b, m);
    let qa = a / m;
    let qb = b / m;
    if a % m == b % m {
        assert(b - a == m * (qb - qa)) by (nonlinear_arith)
            requires
                a == m * qa + a % m,
                b == m * qb + b % m,
                a % m == b % m,
        ;
        if qb - qa >= 1 {
            assert(m * (qb - qa) >= m) by (nonlinear_arith)
                requires
                    qb - qa >= 1,
                    m > 0,
            ;
        } else {
            assert(m * (qb - qa) <= 0) by (nonlinear_arith)
                requires
                    qb - qa <= 0,
                    m > 0,
            ;
        }
    }
}

impl<const SNAKE_LEN: usize, const X_LIM: usize, const Y_LIM: usize> Snake<
    SNAKE_LEN,
    X_LIM,
    Y_LIM,
> {
    /// The body has at least one cell and never more than its capacity, every
    /// cell is on the grid, and no cell is occupied twice.
    pub open spec fn wf(&self) -> bool {
        &&& Position::<X_LIM, Y_LIM>::limits_ok()
        &&& self.body.wf()
        &&& 0 < self.body.view().len() <= SNAKE_LEN
        &&& forall|i: int| 0 <= i < self.body.view().len() ==> (#[trigger] self.body.view()[i]).wf()
        &&& all_distinct(self.body.view())
        &&& self.snake_tail.wf()
    }

    pub open spec fn head(&self) -> Position<X_LIM, Y_LIM> {
        self.body.view().last()
    }

    /// Where the head goes when `requested` is asked for.
    pub open spec fn next_head(&self, requested: Direction) -> Position<X_LIM, Y_LIM> {
        self.head().shifted_dir(resolve_dir(self.current_dir, requested), 1)
    }

    /// The outcome of one step towards `requested` with the apple at `apple`.
    pub open spec fn outcome(&self, requested: Direction, apple: Position<X_LIM, Y_LIM>) -> MovementResult {
        let head = self.next_head(requested);
        if self.body.view().contains(head) {
            MovementResult::BitSelf
        } else if head == apple {
            if self.body.view().len() + 1 == SNAKE_LEN {
                MovementResult::AteAppleAndMaxed
            } else {
                MovementResult::AteApple
            }
        } else {
            MovementResult::Moving
        }
    }

    /// Asking for a U-turn moves the snake exactly as asking to go straight on.
    pub proof fn lemma_reversal_goes_straight(&self, apple: Position<X_LIM, Y_LIM>)
        ensures
            self.next_head(opposite(self.current_dir)) == self.next_head(self.current_dir),
            self.outcome(opposite(self.current_dir), apple) == self.outcome(self.current_dir, apple),
    {
    }

    /// A snake one cell short of its capacity that eats the apple with a free
    /// cell ahead fills up and wins.
    pub proof fn lemma_last_apple_wins(&self, dir: Direction, apple: Position<X_LIM, Y_LIM>)
        requires
            self.body.view().len() + 1 == SNAKE_LEN,
            self.next_head(dir) == apple,
            !self.body.view().contains(apple),
        ensures
            self.outcome(dir, apple) == MovementResult::AteAppleAndMaxed,
    {
    }

    /// A snake of `len` cells whose head is at `start_pos`, the other cells
    /// trailing behind it, against the heading `dir`.
    pub fn new(start_pos: Position<X_LIM, Y_LIM>, len: u8, dir: Direction) -> (r: Self)
        requires
            Position::<X_LIM, Y_LIM>::limits_ok(),
            start_pos.wf(),
            1 <= len <= SNAKE_LEN,
            len <= Position::<X_LIM, Y_LIM>::axis_limit(dir),
        ensures
            r.wf(),
            r.body.view().len() == len,
            forall|i: int|
                0 <= i < len ==> #[trigger] r.body.view()[i] == start_pos.shifted_dir(
                    dir,
                    i - (len - 1),
                ),
            r.head() == start_pos,
            r.current_dir == dir,
    {
        let mut body: RingBuffer<Position<X_LIM, Y_LIM>, SNAKE_LEN> = RingBuffer::new();
        let mut i: u8 = 0;
        while i < len
            invariant
                Position::<X_LIM, Y_LIM>::limits_ok(),
                start_pos.wf(),
                1 <= len <= SNAKE_LEN,
                len <= Position::<X_LIM, Y_LIM>::axis_limit(dir),
                i <= len,
                body.wf(),
                body.view().len() == i,
                forall|k: int|
                    0 <= k < i ==> #[trigger] body.view()[k] == start_pos.shifted_dir(
                        dir,
                        k - (len - 1),
                    ),
                forall|k: int| 0 <= k < i ==> (#[trigger] body.view()[k]).wf(),
            decreases len - i,
        {
            let back = (len - 1 - i) as isize;
            let cell = start_pos.offset_dir_scaled(dir, -back);
            body.push(cell);
            i = i + 1;
        }
        proof {
            let cells = body.view();
            assert forall|a: int, b: int| 0 <= a < b < cells.len() implies cells[a] != cells[b] by {
                let da = a - (len - 1);
                let db = b - (len - 1);
                match dir {
                    Direction::Up => {
                        lemma_mod_distinct(start_pos.y + da, start_pos.y + db, Y_LIM as int);
                        start_pos.lemma_offset_stays_on_grid(0, da);
                        start_pos.lemma_offset_stays_on_grid(0, db);
                    },
                    Direction::Down => {
                        lemma_mod_distinct(start_pos.y - db, start_pos.y - da, Y_LIM as int);
                        start_pos.lemma_offset_stays_on_grid(0, -da);
                        start_pos.lemma_offset_stays_on_grid(0, -db);
                    },
                    Direction::Left => {
                        lemma_mod_distinct(start_pos.x - db, start_pos.x - da, X_LIM as int);
                        start_pos.lemma_offset_stays_on_grid(-da, 0);
                        start_pos.lemma_offset_stays_on_grid(-db, 0);
                    },
                    Direction::Right => {
                        lemma_mod_distinct(start_pos.x + da, start_pos.x + db, X_LIM as int);
                        start_pos.lemma_offset_stays_on_grid(da, 0);
                        start_pos.lemma_offset_stays_on_grid(db, 0);
                    },
                }
            }
            start_pos.lemma_offset_full_turn();
            assert(body.view()[len - 1] == start_pos.shifted_dir(dir, 0));
        }
        Self { body, current_dir: dir, snake_tail: Position::new(0, 0) }
    }

    /// One step towards `dir` (a U-turn keeps the current heading): bites
    /// itself when the new head is already part of the body; otherwise the
    /// head advances, and the tail follows unless the apple was eaten.
    pub fn move_dir(&mut self, dir: Direction, apple_pos: Position<X_LIM, Y_LIM>) -> (r: MovementResult)
        requires
            old(self).wf(),
            old(self).body.view().len() < SNAKE_LEN,
        ensures
            final(self).wf(),
            r == old(self).outcome(dir, apple_pos),
            r is BitSelf ==> *final(self) == *old(self),
            !(r is BitSelf) ==> final(self).current_dir == resolve_dir(old(self).current_dir, dir),
            r is Moving ==> final(self).body.view() == old(self).body.view().push(
                old(self).next_head(dir),
            ).drop_first() && final(self).snake_tail == old(self).body.view()[0],
            (r is AteApple || r is AteAppleAndMaxed) ==> final(self).body.view() == old(
                self,
            ).body.view().push(old(self).next_head(dir)) && final(self).snake_tail == old(
                self,
            ).snake_tail,
    {
        let dir = if dir.is_opposing(self.current_dir) {
            dir.get_opposite()
        } else {
            dir
        };
        let head = self.body.peek_back().unwrap().offset_dir(dir);
        if self.check_overlap(&head) {
            return MovementResult::BitSelf;
        }
        let ghost before = self.body.view();
        self.body.push(head);
        self.current_dir = dir;
        proof {
            assert(self.body.view() == before.push(head));
            assert forall|i: int, j: int| 0 <= i < j < self.body.view().len() implies
                self.body.view()[i] != self.body.view()[j] by {
                if j == before.len() {
                    assert(before.contains(before[i]));
                }
            }
        }
        if apple_pos == head {
            if self.body.is_full() {
                MovementResult::AteAppleAndMaxed
            } else {
                MovementResult::AteApple
            }
        } else {
            let ghost grown = self.body.view();
            if let Some(pos) = self.body.pop() {
                self.snake_tail = pos
            }
            proof {
                assert(self.body.view() == grown.drop_first());
                assert forall|i: int, j: int| 0 <= i < j < self.body.view().len() implies
                    self.body.view()[i] != self.body.view()[j] by {
                    assert(self.body.view()[i] == grown[i + 1]);
                    assert(self.body.view()[j] == grown[j + 1]);
                }
                assert forall|i: int| 0 <= i < self.body.view().len() implies (
                #[trigger] self.body.view()[i]).wf() by {
                    assert(self.body.view()[i] == grown[i + 1]);
                }
            }
            MovementResult::Moving
        }
    }

    /// Whether `apple` is one of the body's cells.
    pub fn check_overlap(&self, apple: &Position<X_LIM, Y_LIM>) -> (r: bool)
        requires
            self.body.wf(),
        ensures
            r == self.body.view().contains(*apple),
    {
        let n = self.body.len();
        let mut i: usize = 0;
        while i < n
            invariant
                self.body.wf(),
                n == self.body.view().len(),
                i <= n,
                forall|k: int| 0 <= k < i ==> self.body.view()[k] != *apple,
            decreases n - i,
        {
            let cell = self.body.get(i).unwrap();
            if *cell == *apple {
                return true;
            }
            i = i + 1;
        }
        false
    }

    /// Cursor over the body, tail first.
    pub fn iter(&self) -> (r: RingBufferIter<'_, Position<X_LIM, Y_LIM>, SNAKE_LEN>)
        ensures
            *r.buf == self.body,
            r.idx == 0,
    {
        self.body.iter()
    }

    /// The cell vacated by the tail on the last plain move.
    pub fn snake_tail(&self) -> (r: &Position<X_LIM, Y_LIM>)
        ensures
            *r == self.snake_tail,
    {
        &self.snake_tail
    }
}

} // verus!
