use bracket_lib::prelude::RandomNumberGenerator;
use tetris_engine::{Board, Color, Piece, State, Tetromino};

fn piece(kind: Tetromino, rotation: i32, x: i32, y: i32) -> Piece {
    Piece { kind, rotation, x, y, color: kind.color() }
}

fn state_with(board: Board, current: Piece) -> State {
    State {
        board,
        current,
        next: Piece::spawn(Tetromino::T),
        rng: RandomNumberGenerator::seeded(11),
        speed: 15,
        frame: 0,
        score: 0,
        game_over: false,
    }
}

fn full_board() -> Board {
    let mut board = Board::new();
    for y in 0..20 {
        for x in 0..10 {
            board.set(x, y, Some(Color::Red));
        }
    }
    board
}

#[test]
fn empty_board_admits_every_spawn() {
    let state = state_with(Board::new(), Piece::spawn(Tetromino::I));
    for kind in [
        Tetromino::I,
        Tetromino::O,
        Tetromino::T,
        Tetromino::S,
        Tetromino::Z,
        Tetromino::J,
        Tetromino::L,
    ] {
        assert!(state.is_valid_position(&Piece::spawn(kind)));
    }
}

#[test]
fn side_walls_reject() {
    let state = state_with(Board::new(), Piece::spawn(Tetromino::O));
    assert!(state.is_valid_position(&piece(Tetromino::O, 0, 0, 5)));
    assert!(!state.is_valid_position(&piece(Tetromino::O, 0, -1, 5)));
    assert!(state.is_valid_position(&piece(Tetromino::O, 0, 8, 5)));
    assert!(!state.is_valid_position(&piece(Tetromino::O, 0, 9, 5)));
    assert!(state.is_valid_position(&piece(Tetromino::I, 0, 2, 5)));
    assert!(!state.is_valid_position(&piece(Tetromino::I, 0, 1, 5)));
    assert!(state.is_valid_position(&piece(Tetromino::I, 0, 8, 5)));
    assert!(!state.is_valid_position(&piece(Tetromino::I, 0, 9, 5)));
}

#[test]
fn floor_rejects() {
    let state = state_with(Board::new(), Piece::spawn(Tetromino::O));
    assert!(state.is_valid_position(&piece(Tetromino::O, 0, 4, 18)));
    assert!(!state.is_valid_position(&piece(Tetromino::O, 0, 4, 19)));
    assert!(state.is_valid_position(&piece(Tetromino::I, 0, 4, 19)));
    assert!(!state.is_valid_position(&piece(Tetromino::I, 0, 4, 20)));
}

#[test]
fn settled_cells_reject_overlap() {
    let mut board = Board::new();
    board.set(5, 10, Some(Color::Blue));
    let state = state_with(board, Piece::spawn(Tetromino::O));
    assert!(!state.is_valid_position(&piece(Tetromino::O, 0, 5, 10)));
    assert!(!state.is_valid_position(&piece(Tetromino::O, 0, 4, 10)));
    assert!(!state.is_valid_position(&piece(Tetromino::O, 0, 5, 9)));
    assert!(!state.is_valid_position(&piece(Tetromino::O, 0, 4, 9)));
    assert!(state.is_valid_position(&piece(Tetromino::O, 0, 6, 10)));
    assert!(state.is_valid_position(&piece(Tetromino::O, 0, 3, 10)));
    assert!(state.is_valid_position(&piece(Tetromino::O, 0, 5, 11)));
    assert!(state.is_valid_position(&piece(Tetromino::O, 0, 5, 8)));
}

#[test]
fn cells_above_the_board_are_free_whatever_the_board_holds() {
    let state = state_with(full_board(), Piece::spawn(Tetromino::O));
    assert!(state.is_valid_position(&piece(Tetromino::O, 0, 4, -2)));
    assert!(state.is_valid_position(&piece(Tetromino::I, 0, 5, -1)));
    assert!(state.is_valid_position(&piece(Tetromino::I, 1, 5, -2)));
    assert!(state.is_valid_position(&piece(Tetromino::I, 0, 5, -1000)));
    assert!(state.is_valid_position(&piece(Tetromino::I, 0, 5, i32::MIN)));
    assert!(!state.is_valid_position(&piece(Tetromino::O, 0, 4, -1)));
}

#[test]
fn walls_reject_above_the_board_too() {
    let state = state_with(Board::new(), Piece::spawn(Tetromino::O));
    assert!(!state.is_valid_position(&piece(Tetromino::I, 0, 0, -1)));
    assert!(!state.is_valid_position(&piece(Tetromino::O, 0, 9, -5)));
    assert!(!state.is_valid_position(&piece(Tetromino::O, 0, i32::MAX, -5)));
    assert!(!state.is_valid_position(&piece(Tetromino::O, 0, i32::MIN, -5)));
    assert!(!state.is_valid_position(&piece(Tetromino::O, 0, 4, i32::MAX)));
}

#[test]
fn try_move_commits_a_valid_move() {
    let mut state = state_with(Board::new(), Piece::spawn(Tetromino::T));
    assert!(state.try_move(-1, 0));
    assert_eq!(state.current, piece(Tetromino::T, 0, 4, 0));
    assert!(state.try_move(1, 0));
    assert!(state.try_move(1, 0));
    assert_eq!(state.current, piece(Tetromino::T, 0, 6, 0));
    assert!(state.try_move(0, 1));
    assert_eq!(state.current, piece(Tetromino::T, 0, 6, 1));
    assert!(state.try_move(-3, 10));
    assert_eq!(state.current, piece(Tetromino::T, 0, 3, 11));
    assert_eq!(state.board, Board::new());
    assert_eq!((state.score, state.speed, state.frame, state.game_over), (0, 15, 0, false));
}

#[test]
fn try_move_into_a_wall_changes_nothing() {
    let mut board = Board::new();
    board.set(0, 19, Some(Color::Green));
    let start = piece(Tetromino::T, 0, 1, 3);
    let mut state = state_with(board, start);
    state.score = 700;
    state.speed = 9;
    state.frame = 44;
    let next = state.next;
    assert!(!state.try_move(-1, 0));
    assert!(!state.try_move(0, 17));
    assert!(!state.try_move(100, 0));
    assert!(!state.try_move(0, i32::MAX));
    assert!(!state.try_move(i32::MIN, 0));
    assert_eq!(state.current, start);
    assert_eq!(state.next, next);
    assert_eq!(state.board, board);
    assert_eq!((state.score, state.speed, state.frame, state.game_over), (700, 9, 44, false));
}

#[test]
fn try_move_onto_settled_cells_changes_nothing() {
    let mut board = Board::new();
    board.set(5, 2, Some(Color::Green));
    let start = piece(Tetromino::O, 0, 5, 0);
    let mut state = state_with(board, start);
    assert!(!state.try_move(0, 1));
    assert!(!state.try_move(-1, 1));
    assert_eq!(state.current, start);
    assert_eq!(state.board, board);
    assert!(state.try_move(1, 1));
    assert_eq!(state.current, piece(Tetromino::O, 0, 6, 1));
}

#[test]
fn try_move_refuses_a_pivot_without_machine_coordinates() {
    let start = piece(Tetromino::I, 0, 5, i32::MIN);
    let mut state = state_with(Board::new(), start);
    assert!(!state.try_move(0, -1));
    assert_eq!(state.current, start);
    assert!(state.try_move(0, 1));
    assert_eq!(state.current, piece(Tetromino::I, 0, 5, i32::MIN + 1));
}

#[test]
fn try_rotate_commits_a_valid_turn() {
    let mut state = state_with(Board::new(), piece(Tetromino::T, 0, 5, 5));
    state.try_rotate(1);
    assert_eq!(state.current, piece(Tetromino::T, 1, 5, 5));
    state.try_rotate(1);
    state.try_rotate(1);
    assert_eq!(state.current, piece(Tetromino::T, 3, 5, 5));
    state.try_rotate(1);
    assert_eq!(state.current, piece(Tetromino::T, 0, 5, 5));
    state.try_rotate(-1);
    assert_eq!(state.current, piece(Tetromino::T, 3, 5, 5));
    state.try_rotate(6);
    assert_eq!(state.current, piece(Tetromino::T, 1, 5, 5));
}

#[test]
fn try_rotate_against_a_wall_changes_nothing() {
    let start = piece(Tetromino::I, 1, 0, 5);
    let mut board = Board::new();
    board.set(9, 19, Some(Color::Cyan));
    let mut state = state_with(board, start);
    state.score = 100;
    state.speed = 14;
    assert!(state.is_valid_position(&start));
    state.try_rotate(1);
    assert_eq!(state.current, start);
    assert_eq!(state.board, board);
    assert_eq!((state.score, state.speed, state.frame, state.game_over), (100, 14, 0, false));
}

#[test]
fn try_rotate_against_the_floor_changes_nothing() {
    let start = piece(Tetromino::I, 0, 5, 19);
    let mut state = state_with(Board::new(), start);
    state.try_rotate(1);
    assert_eq!(state.current, start);
}

#[test]
fn try_rotate_against_settled_cells_changes_nothing() {
    let mut board = Board::new();
    board.set(5, 6, Some(Color::Red));
    let start = piece(Tetromino::I, 0, 5, 5);
    let mut state = state_with(board, start);
    state.try_rotate(1);
    assert_eq!(state.current, start);
    assert_eq!(state.board, board);
}
