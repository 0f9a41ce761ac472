use snake_game::game::direction::Direction;
use snake_game::game::position::Position;
use snake_game::game::snake::Snake;
use snake_game::game::{Command, Game, GameResult};
use snake_game::rand::{Random, RandomGenerator};

type Cell = Position<8, 8>;

fn body_len(game: &Game) -> usize {
    let mut n = 0;
    let mut cursor = game.iter_snake();
    while cursor.next().is_some() {
        n += 1;
    }
    n
}

fn head(game: &Game) -> Cell {
    let mut last = None;
    let mut cursor = game.iter_snake();
    while let Some(p) = cursor.next() {
        last = Some(*p);
    }
    last.unwrap()
}

fn scripted(head: Cell, dir: Direction, apple: Cell) -> Game {
    Game {
        snake: Snake::new(head, 3, dir),
        apple,
        rand_gen: RandomGenerator::new(0xDEADBEEF),
    }
}

#[test]
fn eat_then_reverse_scenario() {
    let mut game = scripted(Cell::new(4, 4), Direction::Right, Cell::new(5, 4));
    assert_eq!(game.step(Command::Move(Direction::Right)), GameResult::Continue);
    assert_eq!(head(&game), Cell::new(5, 4));
    assert_eq!(body_len(&game), 4);
    let apple = game.apple();
    assert!(apple.x() < 8 && apple.y() < 8);
    game.apple = Cell::new(0, 0);
    assert_eq!(game.step(Command::Move(Direction::Left)), GameResult::Continue);
    assert_eq!(head(&game), Cell::new(6, 4));
    assert_eq!(body_len(&game), 4);
    assert_eq!(*game.last_snake_tail(), Cell::new(2, 4));
}

#[test]
fn reset_always_restarts() {
    let mut game = Game::new(RandomGenerator::new(0xDEADBEEF));
    assert_eq!(body_len(&game), 3);
    for i in 0..30 {
        let cmd = if i % 3 == 0 { Command::Reset } else { Command::Move(Direction::Up) };
        let r = game.step(cmd);
        if cmd == Command::Reset {
            assert_eq!(r, GameResult::Restarting);
            assert_eq!(body_len(&game), 3);
        }
        let apple = game.apple();
        assert!(apple.x() < 8 && apple.y() < 8);
    }
}

#[test]
fn biting_itself_dies_and_restarts() {
    let mut game = Game {
        snake: Snake::new(Cell::new(3, 0), 4, Direction::Right),
        apple: Cell::new(7, 7),
        rand_gen: RandomGenerator::new(7),
    };
    assert_eq!(game.step(Command::Move(Direction::Up)), GameResult::Continue);
    assert_eq!(game.step(Command::Move(Direction::Left)), GameResult::Continue);
    assert_eq!(game.step(Command::Move(Direction::Down)), GameResult::Died);
    assert_eq!(body_len(&game), 3);
}

#[test]
fn filling_the_snake_wins() {
    let mut game = scripted(Cell::new(2, 0), Direction::Right, Cell::new(3, 0));
    let mut route = Vec::new();
    route.extend([Direction::Right; 5]);
    route.push(Direction::Up);
    route.extend([Direction::Left; 7]);
    route.push(Direction::Up);
    route.extend([Direction::Right; 2]);
    for dir in route {
        game.apple = head(&game).offset_dir(dir);
        assert_eq!(game.step(Command::Move(dir)), GameResult::Continue);
    }
    assert_eq!(body_len(&game), 19);
    game.apple = head(&game).offset_dir(Direction::Right);
    assert_eq!(game.step(Command::Move(Direction::Right)), GameResult::Won);
    assert_eq!(body_len(&game), 3);
}

#[test]
fn random_positions_cover_the_grid() {
    let mut rng = RandomGenerator::new(0xDEADBEEF);
    let mut seen = [[false; 8]; 8];
    for _ in 0..2000 {
        let p = Cell::random(&mut rng);
        assert!(p.x() < 8 && p.y() < 8);
        seen[p.x() as usize][p.y() as usize] = true;
    }
    assert!(seen.iter().all(|row| row.iter().all(|&s| s)));
}

#[test]
fn random_directions_reach_all_four() {
    let mut rng = RandomGenerator::new(42);
    let mut seen = [false; 4];
    for _ in 0..200 {
        let i = match Direction::random(&mut rng) {
            Direction::Up => 0,
            Direction::Down => 1,
            Direction::Left => 2,
            Direction::Right => 3,
        };
        seen[i] = true;
    }
    assert_eq!(seen, [true; 4]);
}

#[test]
fn same_seed_same_game() {
    let a = Game::new(RandomGenerator::new(99));
    let b = Game::new(RandomGenerator::new(99));
    assert_eq!(a.apple(), b.apple());
    assert_eq!(head(&a), head(&b));
}

#[test]
fn board_shows_snake_over_apple() {
    let game = scripted(Cell::new(4, 4), Direction::Right, Cell::new(5, 4));
    let board = game.board();
    for y in 0..8usize {
        for x in 0..8usize {
            let expected = if y == 4 && (2..=4).contains(&x) {
                'S'
            } else if y == 4 && x == 5 {
                'A'
            } else {
                '-'
            };
            assert_eq!(board[y * 8 + x], expected);
        }
    }
    let covered = scripted(Cell::new(4, 4), Direction::Right, Cell::new(3, 4));
    assert_eq!(covered.board()[4 * 8 + 3], 'S');
    assert_eq!(covered.board().iter().filter(|&&c| c == 'A').count(), 0);
}
