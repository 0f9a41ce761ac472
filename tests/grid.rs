use snake_game::game::direction::Direction;
use snake_game::game::position::Position;

type Cell = Position<8, 8>;

#[test]
fn offset_wraps_past_each_edge() {
    let p = Cell::new(7, 0);
    assert_eq!(p.offset(1, 0), Cell::new(0, 0));
    assert_eq!(p.offset(0, -1), Cell::new(7, 7));
    assert_eq!(Cell::new(0, 7).offset(-1, 1), Cell::new(7, 0));
    assert_eq!(Cell::new(3, 4).offset(2, -3), Cell::new(5, 1));
}

#[test]
fn offset_by_full_limit_is_identity() {
    for x in 0..8u8 {
        for y in 0..8u8 {
            let p = Cell::new(x, y);
            assert_eq!(p.offset(8, 0), p);
            assert_eq!(p.offset(-8, 0), p);
            assert_eq!(p.offset(0, 8), p);
            assert_eq!(p.offset(0, -8), p);
        }
    }
}

#[test]
fn offset_stays_on_grid() {
    for x in 0..8u8 {
        for y in 0..8u8 {
            for d in -7..=7isize {
                let q = Cell::new(x, y).offset(d, -d);
                assert!(q.x() < 8 && q.y() < 8);
            }
        }
    }
}

#[test]
fn offset_dir_follows_compass() {
    let p = Cell::new(4, 4);
    assert_eq!(p.offset_dir(Direction::Up), Cell::new(4, 5));
    assert_eq!(p.offset_dir(Direction::Down), Cell::new(4, 3));
    assert_eq!(p.offset_dir(Direction::Left), Cell::new(3, 4));
    assert_eq!(p.offset_dir(Direction::Right), Cell::new(5, 4));
    assert_eq!(p.offset_dir_scaled(Direction::Right, -2), Cell::new(2, 4));
    assert_eq!(p.offset_dir_scaled(Direction::Down, 5), Cell::new(4, 7));
}

#[test]
fn opposite_is_an_involution() {
    for d in [Direction::Up, Direction::Down, Direction::Left, Direction::Right] {
        assert_eq!(d.get_opposite().get_opposite(), d);
        assert_ne!(d.get_opposite(), d);
    }
    assert_eq!(Direction::Up.get_opposite(), Direction::Down);
    assert_eq!(Direction::Left.get_opposite(), Direction::Right);
}

#[test]
fn is_opposing_is_symmetric() {
    let all = [Direction::Up, Direction::Down, Direction::Left, Direction::Right];
    for a in all {
        for b in all {
            assert_eq!(a.is_opposing(b), b.is_opposing(a));
        }
    }
    assert!(Direction::Up.is_opposing(Direction::Down));
    assert!(!Direction::Up.is_opposing(Direction::Left));
    assert!(!Direction::Up.is_opposing(Direction::Up));
}

#[test]
fn scale_bounded_by_its_own_axis() {
    let p = Position::<8, 2>::new(1, 1);
    assert_eq!(p.offset_dir_scaled(Direction::Right, 5), Position::<8, 2>::new(6, 1));
    assert_eq!(p.offset_dir_scaled(Direction::Left, 5), Position::<8, 2>::new(4, 1));
    assert_eq!(p.offset_dir_scaled(Direction::Up, 2), p);
}

#[test]
fn headings_by_number() {
    assert_eq!(Direction::from_index(0), Direction::Up);
    assert_eq!(Direction::from_index(1), Direction::Down);
    assert_eq!(Direction::from_index(2), Direction::Left);
    assert_eq!(Direction::from_index(3), Direction::Right);
}
