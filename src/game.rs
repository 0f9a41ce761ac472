pub mod direction;
pub mod position;
pub mod ringbuffer;
pub mod snake;

use self::direction::Direction;
use self::position::Position;
use self::ringbuffer::RingBufferIter;
use self::snake::{resolve_dir, MovementResult, Snake};
use crate::rand::{Random, RandomGenerator};
use vstd::prelude::*;

verus! {

/// Longest the snake can grow; reaching it wins the round.
pub const SNAKE_LEN: usize = 20;

/// Width of the grid.
pub const X_LIM: usize = 8;

/// Height of the grid.
pub const Y_LIM: usize = 8;

/// Length of a freshly spawned snake.
pub const START_LEN: u8 = 3;

/// A request from the player for one step of the game.
#[derive(Debug, Clone, Copy, PartialEq, Eq, Structural)]
pub enum Command {
    Reset,
    Move(Direction),
}

/// What a step of the game came to; after `Died` and `Won` a new round has
/// already begun.
#[derive(Debug, Clone, Copy, PartialEq, Eq, Structural)]
pub enum GameResult {
    Continue,
    Died,
    Won,
    Restarting,
}

/// How the game reports each outcome of the snake's step.
pub open spec fn result_of(outcome: MovementResult) -> GameResult {
    match outcome {
        MovementResult::BitSelf => GameResult::Died,
        MovementResult::Moving => GameResult::Continue,
        MovementResult::AteApple => GameResult::Continue,
        MovementResult::AteAppleAndMaxed => GameResult::Won,
    }
}

/// The cells of a freshly spawned snake with its head at `head`, moving
/// along `dir`: tail first, each one step behind the next.
pub open spec fn spawn_cells(head: Position<X_LIM, Y_LIM>, dir: Direction) -> Seq<Position<X_LIM, Y_LIM>> {
    Seq::new(START_LEN as nat, |i: int| head.shifted_dir(dir, i - (START_LEN - 1)))
}

/// One round of play: the snake, the apple and the random source that places
/// them.
pub struct Game {
    pub snake: Snake<SNAKE_LEN, X_LIM, Y_LIM>,
    pub apple: Position<X_LIM, Y_LIM>,
    pub rand_gen: RandomGenerator,
}

impl Game {
    /// The snake is well formed and can still take a step; the apple is on the
    /// grid.
    pub open spec fn wf(&self) -> bool {
        &&& self.snake.wf()
        &&& self.snake.body.view().len() < SNAKE_LEN
        &&& self.apple.wf()
    }

    /// A round that has just begun: a snake of the starting length laid out
    /// straight behind its head at some cell, along some heading.
    pub open spec fn fresh_round(&self) -> bool {
        &&& self.wf()
        &&& self.snake.body.view().len() == START_LEN
        &&& exists|p: Position<X_LIM, Y_LIM>, d: Direction|
            p.wf() && self.snake.current_dir == d && self.snake.body.view() == #[trigger] spawn_cells(
                p,
                d,
            )
    }

    /// Character shown for cell `p`: the snake hides the apple, which hides the
    /// empty ground.
    pub open spec fn cell_char(&self, p: Position<X_LIM, Y_LIM>) -> char {
        if self.snake.body.view().contains(p) {
            'S'
        } else if self.apple == p {
            'A'
        } else {
            '-'
        }
    }

    /// The grid as characters, row after row from `y == 0`: cell (x, y) is at
    /// index `y * X_LIM + x`.
    pub fn board(&self) -> (r: [char; 64])
        requires
            self.wf(),
        ensures
            forall|x: u8, y: u8|
                x < X_LIM && y < Y_LIM ==> #[trigger] r@[y * 8 + x] == self.cell_char(
                    (Position { x, y }),
                ),
    {
        let mut grid: [char; 64] = ['-'; 64];
        let apple_idx = self.apple.y as usize * X_LIM + self.apple.x as usize;
        grid[apple_idx] = 'A';
        let body = &self.snake.body;
        let n = body.len();
        let mut i: usize = 0;
        while i < n
            invariant
                self.wf(),
                body == &self.snake.body,
                n == body.view().len(),
                i <= n,
                apple_idx == self.apple.y * 8 + self.apple.x,
                forall|idx: int|
                    0 <= idx < 64 ==> #[trigger] grid@[idx] == if exists|k: int|
                        0 <= k < i && #[trigger] (body.view()[k].y * 8 + body.view()[k].x) == idx {
                        'S'
                    } else if idx == apple_idx {
                        'A'
                    } else {
                        '-'
                    },
            decreases n - i,
        {
            let cell = body.get(i).unwrap();
            assert(cell.wf());
            let idx = cell.y as usize * X_LIM + cell.x as usize;
            grid[idx] = 'S';
            proof {
                assert forall|j: int| 0 <= j < 64 implies #[trigger] grid@[j] == if exists|k: int|
                    0 <= k < i + 1 && #[trigger] (body.view()[k].y * 8 + body.view()[k].x) == j {
                    'S'
                } else if j == apple_idx {
                    'A'
                } else {
                    '-'
                } by {
                    if j == idx {
                        assert(body.view()[i as int].y * 8 + body.view()[i as int].x == j);
                    } else {
                        if exists|k: int|
                            0 <= k < i + 1 && #[trigger] (body.view()[k].y * 8 + body.view()[k].x)
                                == j {
                            let k = choose|k: int|
                                0 <= k < i + 1 && #[trigger] (body.view()[k].y * 8
                                    + body.view()[k].x) == j;
                            assert(k < i);
                        }
                    }
                }
            }
            i = i + 1;
        }
        proof {
            assert forall|x: u8, y: u8| x < X_LIM && y < Y_LIM implies #[trigger] grid@[y * 8 + x]
                == self.cell_char((Position { x, y })) by {
                let p = Position::<X_LIM, Y_LIM> { x, y };
                let j = y * 8 + x;
                if body.view().contains(p) {
                    let k = choose|k: int| 0 <= k < n && body.view()[k] == p;
                    assert(body.view()[k].y * 8 + body.view()[k].x == j);
                } else if exists|k: int|
                    0 <= k < n && #[trigger] (body.view()[k].y * 8 + body.view()[k].x) == j {
                    let k = choose|k: int|
                        0 <= k < n && #[trigger] (body.view()[k].y * 8 + body.view()[k].x) == j;
                    assert(body.view()[k].wf());
                    assert(body.view()[k] == p);
                }
            }
        }
        grid
    }

    pub fn new(rand_gen: RandomGenerator) -> (r: Self)
        ensures
            r.fresh_round(),
    {
        let mut rand_gen = rand_gen;
        let apple = Position::random(&mut rand_gen);
        let start = Position::random(&mut rand_gen);
        let dir = Direction::random(&mut rand_gen);
        let r = Self { snake: Snake::new(start, START_LEN, dir), apple, rand_gen };
        assert(r.snake.body.view() =~= spawn_cells(start, dir));
        r
    }

    /// Applies one command and reports the outcome.
    pub fn step(&mut self, cmd: Command) -> (r: GameResult)
        requires
            old(self).wf(),
        ensures
            final(self).wf(),
            match cmd {
                Command::Reset => r == GameResult::Restarting && final(self).fresh_round(),
                Command::Move(dir) => {
                    let outcome = old(self).snake.outcome(dir, old(self).apple);
                    let head = old(self).snake.next_head(dir);
                    let taken = resolve_dir(old(self).snake.current_dir, dir);
                    &&& r == result_of(outcome)
                    &&& (outcome is BitSelf || outcome is AteAppleAndMaxed)
                        ==> final(self).fresh_round()
                    &&& outcome is Moving ==> final(self).snake.body.view() == old(
                        self,
                    ).snake.body.view().push(head).drop_first() && final(self).snake.current_dir
                        == taken && final(self).apple == old(self).apple
                        && final(self).snake.snake_tail == old(self).snake.body.view()[0]
                        && final(self).rand_gen == old(self).rand_gen
                    &&& outcome is AteApple ==> final(self).snake.body.view() == old(
                        self,
                    ).snake.body.view().push(head) && final(self).snake.current_dir == taken
                        && final(self).snake.snake_tail == old(self).snake.snake_tail
                },
            },
    {
        match cmd {
            Command::Reset => {
                self.reset();
                GameResult::Restarting
            },
            Command::Move(dir) => match self.snake.move_dir(dir, self.apple) {
                MovementResult::BitSelf => {
                    self.reset();
                    GameResult::Died
                },
                MovementResult::Moving => GameResult::Continue,
                MovementResult::AteApple => {
                    self.apple = Position::random(&mut self.rand_gen);
                    GameResult::Continue
                },
                MovementResult::AteAppleAndMaxed => {
                    self.reset();
                    GameResult::Won
                },
            },
        }
    }

    /// Starts a new round: a fresh snake at a random cell and heading, and a
    /// fresh apple. The apple may land on the snake.
    pub fn reset(&mut self)
        ensures
            final(self).fresh_round(),
    {
        let start = Position::random(&mut self.rand_gen);
        let dir = Direction::random(&mut self.rand_gen);
        self.snake = Snake::new(start, START_LEN, dir);
        assert(self.snake.body.view() =~= spawn_cells(start, dir));
        self.apple = Position::random(&mut self.rand_gen);
    }

    /// Cursor over the snake's cells, tail first.
    pub fn iter_snake(&self) -> (r: RingBufferIter<'_, Position<X_LIM, Y_LIM>, SNAKE_LEN>)
        ensures
            *r.buf == self.snake.body,
            r.idx == 0,
    {
        self.snake.iter()
    }

    pub fn apple(&self) -> (r: Position<X_LIM, Y_LIM>)
        ensures
            r == self.apple,
    {
        self.apple
    }

    /// The cell the snake's tail left on its last plain move.
    pub fn last_snake_tail(&self) -> (r: &Position<X_LIM, Y_LIM>)
        ensures
            *r == self.snake.snake_tail,
    {
        self.snake.snake_tail()
    }
}

} // verus!
