use snake_game::game::direction::Direction;
use snake_game::game::position::Position;
use snake_game::game::snake::{MovementResult, Snake};

type Cell = Position<8, 8>;

fn cells<const N: usize>(snake: &Snake<N, 8, 8>) -> Vec<(u8, u8)> {
    let mut out = Vec::new();
    let mut cursor = snake.iter();
    while let Some(p) = cursor.next() {
        out.push((p.x(), p.y()));
    }
    out
}

#[test]
fn new_snake_trails_behind_its_head() {
    let snake = Snake::<20, 8, 8>::new(Cell::new(4, 4), 3, Direction::Right);
    assert_eq!(cells(&snake), vec![(2, 4), (3, 4), (4, 4)]);
    let snake = Snake::<20, 8, 8>::new(Cell::new(0, 1), 3, Direction::Up);
    assert_eq!(cells(&snake), vec![(0, 7), (0, 0), (0, 1)]);
}

#[test]
fn eating_grows_and_reversal_goes_straight() {
    let mut snake = Snake::<20, 8, 8>::new(Cell::new(4, 4), 3, Direction::Right);
    let r = snake.move_dir(Direction::Right, Cell::new(5, 4));
    assert_eq!(r, MovementResult::AteApple);
    assert_eq!(cells(&snake), vec![(2, 4), (3, 4), (4, 4), (5, 4)]);
    let r = snake.move_dir(Direction::Left, Cell::new(0, 0));
    assert_eq!(r, MovementResult::Moving);
    assert_eq!(cells(&snake), vec![(3, 4), (4, 4), (5, 4), (6, 4)]);
    assert_eq!(*snake.snake_tail(), Cell::new(2, 4));
}

#[test]
fn reversal_matches_going_straight() {
    for d in [Direction::Up, Direction::Down, Direction::Left, Direction::Right] {
        let mut reversed = Snake::<20, 8, 8>::new(Cell::new(2, 6), 3, d);
        let mut straight = Snake::<20, 8, 8>::new(Cell::new(2, 6), 3, d);
        let a = reversed.move_dir(d.get_opposite(), Cell::new(0, 0));
        let b = straight.move_dir(d, Cell::new(0, 0));
        assert_eq!(a, b);
        assert_eq!(cells(&reversed), cells(&straight));
    }
}

#[test]
fn moving_into_own_body_bites() {
    let mut snake = Snake::<20, 8, 8>::new(Cell::new(3, 0), 4, Direction::Right);
    let apple = Cell::new(7, 7);
    assert_eq!(snake.move_dir(Direction::Up, apple), MovementResult::Moving);
    assert_eq!(snake.move_dir(Direction::Left, apple), MovementResult::Moving);
    let before = cells(&snake);
    assert_eq!(before, vec![(2, 0), (3, 0), (3, 1), (2, 1)]);
    assert_eq!(snake.move_dir(Direction::Down, apple), MovementResult::BitSelf);
    assert_eq!(cells(&snake), before);
}

#[test]
fn last_apple_fills_the_snake() {
    let mut snake = Snake::<4, 8, 8>::new(Cell::new(1, 1), 3, Direction::Up);
    let r = snake.move_dir(Direction::Up, Cell::new(1, 2));
    assert_eq!(r, MovementResult::AteAppleAndMaxed);
    assert_eq!(cells(&snake).len(), 4);
}

#[test]
fn check_overlap_finds_body_cells() {
    let snake = Snake::<20, 8, 8>::new(Cell::new(4, 4), 3, Direction::Down);
    assert!(snake.check_overlap(&Cell::new(4, 4)));
    assert!(snake.check_overlap(&Cell::new(4, 6)));
    assert!(!snake.check_overlap(&Cell::new(4, 3)));
}

#[test]
fn long_snake_on_a_flat_grid() {
    let snake = Snake::<20, 8, 2>::new(Position::<8, 2>::new(1, 0), 3, Direction::Right);
    let mut out = Vec::new();
    let mut cursor = snake.iter();
    while let Some(p) = cursor.next() {
        out.push((p.x(), p.y()));
    }
    assert_eq!(out, vec![(7, 0), (0, 0), (1, 0)]);
}
