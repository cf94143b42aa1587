use simple_number::board::Board;
use simple_number::direction::Direction;
use simple_number::error::{ErrorKind, MyError};

#[test]
fn create_board() {
    let board = Board::new(10);
    assert_eq!(board.size(), 10);
    // newly created board has a score of 0
    assert_eq!(board.score(), 0);
    // newly created board is not started
    assert_eq!(board.is_started(), false);
    // unstarted board cannot be won
    assert_eq!(board.is_won(), false);
    // no possible moves because board isn't started
    assert_eq!(board.possible_moves().len(), 0);
}

#[test]
fn start_board() {
    let mut board = Board::new(10);
    board.start_at(5, 5).unwrap();
    assert_eq!(board.values()[55], 1);
    assert_eq!(board.score(), 1);
    // board is started
    assert_eq!(board.is_started(), true);
    // board isn't won
    assert_eq!(board.is_won(), false);
    // all moves should be possible
    assert_eq!(board.possible_moves().len(), 8);
}

#[test]
fn win_5() {
    //  1 24 14  2 25
    // 16 21  5  8 20
    // 13 10 18 23 11
    //  4  7 15  3  6
    // 17 22 12  9 19

    let moves = [
        Direction::Right, Direction::Down, Direction::Left,
        Direction::UpRight, Direction::DownRight, Direction::Left,
        Direction::UpRight, Direction::Down, Direction::UpLeft,
        Direction::Right, Direction::DownLeft, Direction::UpLeft,
        Direction::UpRight, Direction::Down, Direction::UpLeft,
        Direction::Down, Direction::UpRight, Direction::DownRight,
        Direction::Up, Direction::Left, Direction::Down,
        Direction::UpRight, Direction::UpLeft, Direction::Right,
    ];

    let mut board = Board::new(5);
    board.start_at(0, 0).unwrap();
    for m in moves.iter() {
        assert_eq!(board.next_move(*m).is_ok(), true);
    }
    assert_eq!(board.is_won(), true);
    assert_eq!(board.score(), 25);
    assert_eq!(board.possible_moves().len(), 0);
    assert_eq!(board.is_blocked(), true);
}

#[test]
fn solved_grid_matches_worked_example() {
    let moves = [
        Direction::Right, Direction::Down, Direction::Left,
        Direction::UpRight, Direction::DownRight, Direction::Left,
        Direction::UpRight, Direction::Down, Direction::UpLeft,
        Direction::Right, Direction::DownLeft, Direction::UpLeft,
        Direction::UpRight, Direction::Down, Direction::UpLeft,
        Direction::Down, Direction::UpRight, Direction::DownRight,
        Direction::Up, Direction::Left, Direction::Down,
        Direction::UpRight, Direction::UpLeft, Direction::Right,
    ];
    let mut board = Board::new(5);
    board.start_at(0, 0).unwrap();
    for m in moves.iter() {
        board.next_move(*m).unwrap();
    }
    let expected: [u16; 25] = [
        1, 24, 14, 2, 25,
        16, 21, 5, 8, 20,
        13, 10, 18, 23, 11,
        4, 7, 15, 3, 6,
        17, 22, 12, 9, 19,
    ];
    assert_eq!(board.values(), &expected[..]);
    assert_eq!(board.cursor(), (4, 0));
}

#[test]
fn size_is_clamped() {
    assert_eq!(Board::new(0).size(), 5);
    assert_eq!(Board::new(4).size(), 5);
    assert_eq!(Board::new(5).size(), 5);
    assert_eq!(Board::new(16).size(), 16);
    assert_eq!(Board::new(17).size(), 16);
    assert_eq!(Board::new(usize::MAX).size(), 16);
    assert_eq!(Board::new(7).values().len(), 49);
}

#[test]
fn fresh_board_state() {
    let board = Board::new(8);
    assert!(!board.is_started());
    assert_eq!(board.score(), 0);
    assert!(!board.is_won());
    assert!(board.possible_moves().is_empty());
    assert!(!board.is_blocked());
    assert!(board.values().iter().all(|v| *v == 0));
}

#[test]
fn start_sets_one_and_cursor() {
    let mut board = Board::new(6);
    assert_eq!(board.start_at(2, 3), Ok(()));
    assert!(board.is_started());
    assert_eq!(board.score(), 1);
    assert_eq!(board.values()[3 * 6 + 2], 1);
    assert_eq!(board.cursor(), (2, 3));
}

#[test]
fn start_out_of_range() {
    let mut board = Board::new(5);
    let err = board.start_at(5, 0).unwrap_err();
    assert_eq!(err.kind(), ErrorKind::OutOfRange { x: 5, y: 0, size: 5 });
    let err = board.start_at(0, 9).unwrap_err();
    assert_eq!(err, MyError::new(ErrorKind::OutOfRange { x: 0, y: 9, size: 5 }));
    assert!(!board.is_started());
}

#[test]
fn start_twice_on_same_cell_is_occupied() {
    let mut board = Board::new(5);
    board.start_at(1, 1).unwrap();
    let err = board.start_at(1, 1).unwrap_err();
    assert_eq!(err.kind(), ErrorKind::AlreadyOccupied { x: 1, y: 1 });
    assert_eq!(board.score(), 1);
}

#[test]
fn start_twice_on_other_cell_is_invalid_state() {
    let mut board = Board::new(5);
    board.start_at(1, 1).unwrap();
    let err = board.start_at(3, 4).unwrap_err();
    assert_eq!(err.kind(), ErrorKind::InvalidState);
    assert_eq!(board.values()[4 * 5 + 3], 0);
    assert_eq!(board.cursor(), (1, 1));
}

#[test]
fn possible_moves_from_corner() {
    let mut board = Board::new(5);
    board.start_at(0, 0).unwrap();
    assert_eq!(
        board.possible_moves(),
        vec![Direction::Down, Direction::DownRight, Direction::Right]
    );
}

#[test]
fn possible_moves_skip_filled_cells() {
    let mut board = Board::new(5);
    board.start_at(0, 0).unwrap();
    board.next_move(Direction::Right).unwrap();
    // from (3, 0): Down to (3, 3), DownLeft to (1, 2); Left lands on the 1
    assert_eq!(board.possible_moves(), vec![Direction::Down, Direction::DownLeft]);
    let before = board.clone();
    let err = board.next_move(Direction::Left).unwrap_err();
    assert_eq!(err.kind(), ErrorKind::InvalidMove(Direction::Left));
    assert_eq!(board.values(), before.values());
    assert_eq!(board.cursor(), before.cursor());
}

#[test]
fn move_on_unstarted_board_is_invalid_state() {
    let mut board = Board::new(5);
    for d in Direction::iterator() {
        let err = board.next_move(d).unwrap_err();
        assert_eq!(err.kind(), ErrorKind::InvalidState);
    }
    assert!(!board.is_started());
    assert!(board.values().iter().all(|v| *v == 0));
    assert_eq!(board.cursor(), (0, 0));
}

#[test]
fn move_raises_score_by_one() {
    let mut board = Board::new(10);
    board.start_at(5, 5).unwrap();
    board.next_move(Direction::UpLeft).unwrap();
    assert_eq!(board.score(), 2);
    assert_eq!(board.cursor(), (3, 3));
    assert_eq!(board.values()[3 * 10 + 3], 2);
    assert_eq!(board.values()[55], 1);
    board.next_move(Direction::Down).unwrap();
    assert_eq!(board.score(), 3);
    assert_eq!(board.cursor(), (3, 6));
    assert_eq!(board.values()[6 * 10 + 3], 3);
}

#[test]
fn every_direction_offset() {
    let expected = [
        (Direction::Down, (5, 8)),
        (Direction::DownRight, (7, 7)),
        (Direction::Right, (8, 5)),
        (Direction::UpRight, (7, 3)),
        (Direction::Up, (5, 2)),
        (Direction::UpLeft, (3, 3)),
        (Direction::Left, (2, 5)),
        (Direction::DownLeft, (3, 7)),
    ];
    for (d, cell) in expected.iter() {
        let mut board = Board::new(10);
        board.start_at(5, 5).unwrap();
        board.next_move(*d).unwrap();
        assert_eq!(board.cursor(), *cell);
        assert_eq!(d.offset(), ((cell.0 as i64) - 5, (cell.1 as i64) - 5));
    }
}

#[test]
fn filled_cells_never_change() {
    let mut board = Board::new(5);
    board.start_at(0, 0).unwrap();
    board.next_move(Direction::Right).unwrap();
    board.next_move(Direction::Down).unwrap();
    let snapshot: Vec<u16> = board.values().to_vec();
    let _ = board.start_at(0, 0);
    let _ = board.start_at(3, 0);
    let _ = board.next_move(Direction::Up);
    let _ = board.next_move(Direction::Left);
    for (i, v) in snapshot.iter().enumerate() {
        if *v != 0 {
            assert_eq!(board.values()[i], *v);
        }
    }
}

#[test]
fn blocked_needs_a_started_board() {
    let board = Board::new(5);
    assert!(board.possible_moves().is_empty());
    assert!(!board.is_blocked());
}

#[test]
fn off_grid_move_from_corner() {
    let mut board = Board::new(5);
    board.start_at(0, 0).unwrap();
    let err = board.next_move(Direction::Left).unwrap_err();
    assert_eq!(err.kind(), ErrorKind::InvalidMove(Direction::Left));
    let err = board.next_move(Direction::Up).unwrap_err();
    assert_eq!(err.kind(), ErrorKind::InvalidMove(Direction::Up));
    assert_eq!(board.score(), 1);
    assert_eq!(board.cursor(), (0, 0));
    assert_eq!(board.values().iter().filter(|v| **v != 0).count(), 1);
}

#[test]
fn blocked_before_the_board_is_full() {
    // 1 at (0, 0), 2 at (3, 0), 3 at (3, 3), 4 at (0, 3); from (0, 3) only
    // Up (back to the 1), UpRight to (2, 1) and Right (to the 3) remain.
    let mut board = Board::new(5);
    board.start_at(0, 0).unwrap();
    board.next_move(Direction::Right).unwrap();
    board.next_move(Direction::Down).unwrap();
    board.next_move(Direction::Left).unwrap();
    assert_eq!(board.possible_moves(), vec![Direction::UpRight]);
    assert!(!board.is_blocked());
    assert!(!board.is_won());
}

#[test]
fn largest_board_fills_to_cell_count() {
    let board = Board::new(16);
    assert_eq!(board.values().len(), 256);
    let mut board = Board::new(16);
    board.start_at(15, 15).unwrap();
    assert_eq!(board.possible_moves(), vec![Direction::Up, Direction::UpLeft, Direction::Left]);
}
