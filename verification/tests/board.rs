use tetris::board::{TetrisBoard, BOARD_HEIGHT, BOARD_WIDTH};
use tetris::piece::{FallingTetromino, Tetromino};

fn occupied_cells(board: &TetrisBoard) -> Vec<(usize, usize)> {
    let mut cells = Vec::new();
    for row in 0..BOARD_HEIGHT {
        for column in 0..BOARD_WIDTH {
            if board.is_occupied(column, row) {
                cells.push((column, row));
            }
        }
    }
    cells
}

fn lock_at(board: &mut TetrisBoard, kind: Tetromino, position: (i16, i16), angle: u8) {
    let piece = FallingTetromino::new(kind, position, angle);
    assert!(board.position_is_valid(&piece));
    board.lock(&piece);
}

fn flat(board: &mut TetrisBoard, column: i16, row: i16) {
    lock_at(board, Tetromino::Straight, (column, row), 1);
}

#[test]
fn board_is_ten_by_twenty() {
    assert_eq!(BOARD_WIDTH, 10);
    assert_eq!(BOARD_HEIGHT, 20);
}

#[test]
fn new_board_is_empty() {
    let board = TetrisBoard::new();
    assert_eq!(occupied_cells(&board), Vec::new());
}

#[test]
fn a_piece_inside_an_empty_board_is_valid() {
    let board = TetrisBoard::new();
    for angle in 0..4u8 {
        assert!(board.position_is_valid(&FallingTetromino::new(Tetromino::T, (5, 5), angle)));
    }
}

#[test]
fn a_cell_left_of_the_board_is_invalid() {
    let board = TetrisBoard::new();
    assert!(board.position_is_valid(&FallingTetromino::new(Tetromino::T, (1, 5), 0)));
    assert!(!board.position_is_valid(&FallingTetromino::new(Tetromino::T, (0, 5), 0)));
    assert!(!board.position_is_valid(&FallingTetromino::new(Tetromino::Straight, (-1, 5), 0)));
}

#[test]
fn a_cell_right_of_the_board_is_invalid() {
    let board = TetrisBoard::new();
    assert!(board.position_is_valid(&FallingTetromino::new(Tetromino::Square, (8, 5), 0)));
    assert!(!board.position_is_valid(&FallingTetromino::new(Tetromino::Square, (9, 5), 0)));
    assert!(!board.position_is_valid(&FallingTetromino::new(Tetromino::Straight, (10, 5), 0)));
}

#[test]
fn a_cell_above_the_board_is_invalid() {
    let board = TetrisBoard::new();
    assert!(board.position_is_valid(&FallingTetromino::new(Tetromino::Straight, (5, 2), 0)));
    assert!(!board.position_is_valid(&FallingTetromino::new(Tetromino::Straight, (5, 1), 0)));
}

#[test]
fn a_cell_below_the_board_is_invalid() {
    let board = TetrisBoard::new();
    assert!(board.position_is_valid(&FallingTetromino::new(Tetromino::Straight, (5, 18), 0)));
    assert!(!board.position_is_valid(&FallingTetromino::new(Tetromino::Straight, (5, 19), 0)));
}

#[test]
fn far_positions_are_invalid() {
    let board = TetrisBoard::new();
    for position in [(i16::MAX, 5), (i16::MIN, 5), (5, i16::MAX), (5, i16::MIN)] {
        for angle in 0..4u8 {
            let piece = FallingTetromino::new(Tetromino::L(true), position, angle);
            assert!(!board.position_is_valid(&piece));
        }
    }
}

#[test]
fn off_the_board_is_invalid_for_every_kind_and_rotation() {
    let board = TetrisBoard::new();
    let kinds = [
        Tetromino::Straight,
        Tetromino::Square,
        Tetromino::T,
        Tetromino::L(true),
        Tetromino::L(false),
        Tetromino::Z(true),
        Tetromino::Z(false),
    ];
    for kind in kinds {
        for angle in 0..4u8 {
            for column in -3..13i16 {
                for row in -3..23i16 {
                    let piece = FallingTetromino::new(kind, (column, row), angle);
                    let inside = piece.get_rotated_grid().iter().all(|offset| {
                        let c = column + offset.0;
                        let r = row + offset.1;
                        0 <= c && c <= 9 && 0 <= r && r <= 19
                    });
                    assert_eq!(board.position_is_valid(&piece), inside);
                }
            }
        }
    }
}

#[test]
fn an_occupied_cell_is_invalid() {
    let mut board = TetrisBoard::new();
    lock_at(&mut board, Tetromino::Square, (4, 10), 0);
    assert!(!board.position_is_valid(&FallingTetromino::new(Tetromino::Square, (4, 10), 0)));
    assert!(!board.position_is_valid(&FallingTetromino::new(Tetromino::Square, (5, 11), 0)));
    assert!(!board.position_is_valid(&FallingTetromino::new(Tetromino::Square, (3, 9), 0)));
    assert!(board.position_is_valid(&FallingTetromino::new(Tetromino::Square, (6, 10), 0)));
    assert!(board.position_is_valid(&FallingTetromino::new(Tetromino::Square, (4, 8), 0)));
}

#[test]
fn lock_occupies_the_four_cells_and_no_other() {
    let mut board = TetrisBoard::new();
    lock_at(&mut board, Tetromino::T, (5, 5), 0);
    assert_eq!(occupied_cells(&board), vec![(5, 4), (4, 5), (5, 5), (6, 5)]);
}

#[test]
fn lock_keeps_what_was_locked_before() {
    let mut board = TetrisBoard::new();
    lock_at(&mut board, Tetromino::Square, (0, 18), 0);
    let before = occupied_cells(&board);
    lock_at(&mut board, Tetromino::L(false), (7, 3), 2);
    let after = occupied_cells(&board);
    assert_eq!(after.len(), 8);
    for cell in before {
        assert!(after.contains(&cell));
    }
    for cell in [(7, 4), (7, 3), (7, 2), (8, 2)] {
        assert!(after.contains(&cell));
    }
}

#[test]
fn clean_lines_on_an_empty_board() {
    let mut board = TetrisBoard::new();
    assert_eq!(board.clean_lines(), 0);
    assert_eq!(occupied_cells(&board), Vec::new());
}

#[test]
fn clean_lines_without_a_full_row_changes_nothing() {
    let mut board = TetrisBoard::new();
    flat(&mut board, 2, 19);
    flat(&mut board, 6, 19);
    lock_at(&mut board, Tetromino::T, (5, 18), 0);
    let before = occupied_cells(&board);
    assert_eq!(board.clean_lines(), 0);
    assert_eq!(occupied_cells(&board), before);
}

#[test]
fn clean_lines_with_one_full_row() {
    let mut board = TetrisBoard::new();
    flat(&mut board, 2, 19);
    flat(&mut board, 6, 19);
    lock_at(&mut board, Tetromino::L(true), (8, 18), 0);
    lock_at(&mut board, Tetromino::Square, (0, 0), 0);
    assert_eq!(board.clean_lines(), 1);
    assert_eq!(
        occupied_cells(&board),
        vec![(0, 1), (1, 1), (0, 2), (1, 2), (8, 18), (8, 19)]
    );
    for column in 0..10 {
        assert!(!board.is_occupied(column, 0));
    }
}

#[test]
fn clean_lines_with_a_full_row_in_the_middle() {
    let mut board = TetrisBoard::new();
    flat(&mut board, 2, 10);
    flat(&mut board, 6, 10);
    lock_at(&mut board, Tetromino::L(true), (8, 9), 0);
    lock_at(&mut board, Tetromino::Square, (3, 15), 0);
    assert_eq!(board.clean_lines(), 1);
    assert_eq!(
        occupied_cells(&board),
        vec![(8, 9), (8, 10), (3, 15), (4, 15), (3, 16), (4, 16)]
    );
}

#[test]
fn clean_lines_with_four_full_rows() {
    let mut board = TetrisBoard::new();
    for column in 0..10 {
        lock_at(&mut board, Tetromino::Straight, (column, 18), 0);
    }
    assert_eq!(occupied_cells(&board).len(), 40);
    assert_eq!(board.clean_lines(), 4);
    assert_eq!(occupied_cells(&board), Vec::new());
}

#[test]
fn clean_lines_with_four_full_rows_under_a_rest() {
    let mut board = TetrisBoard::new();
    for column in 0..10 {
        lock_at(&mut board, Tetromino::Straight, (column, 18), 0);
    }
    lock_at(&mut board, Tetromino::T, (4, 15), 0);
    assert_eq!(board.clean_lines(), 4);
    assert_eq!(occupied_cells(&board), vec![(4, 18), (3, 19), (4, 19), (5, 19)]);
}

#[test]
fn clean_lines_with_two_full_rows_next_to_each_other() {
    let mut board = TetrisBoard::new();
    for row in [19, 18] {
        flat(&mut board, 2, row);
        flat(&mut board, 6, row);
    }
    lock_at(&mut board, Tetromino::Square, (8, 18), 0);
    lock_at(&mut board, Tetromino::T, (4, 17), 0);
    assert_eq!(board.clean_lines(), 2);
    assert_eq!(occupied_cells(&board), vec![(4, 18), (3, 19), (4, 19), (5, 19)]);
}

#[test]
fn clean_lines_with_two_full_rows_apart() {
    let mut board = TetrisBoard::new();
    flat(&mut board, 2, 19);
    flat(&mut board, 6, 19);
    lock_at(&mut board, Tetromino::L(true), (8, 18), 0);
    flat(&mut board, 2, 17);
    flat(&mut board, 6, 17);
    lock_at(&mut board, Tetromino::Straight, (9, 16), 0);
    assert_eq!(board.clean_lines(), 2);
    assert_eq!(occupied_cells(&board), vec![(9, 16), (9, 17), (9, 18), (8, 19)]);
}

#[test]
fn clean_lines_keeps_a_row_at_the_top() {
    let mut board = TetrisBoard::new();
    lock_at(&mut board, Tetromino::Straight, (2, 0), 1);
    flat(&mut board, 2, 19);
    flat(&mut board, 6, 19);
    lock_at(&mut board, Tetromino::L(true), (8, 18), 0);
    assert_eq!(board.clean_lines(), 1);
    assert_eq!(
        occupied_cells(&board),
        vec![(0, 1), (1, 1), (2, 1), (3, 1), (8, 18), (8, 19)]
    );
}

#[test]
fn a_straight_piece_falls_to_the_floor() {
    let mut board = TetrisBoard::new();
    let mut piece = FallingTetromino::new(Tetromino::Straight, (5, 5), 0);
    let cells: Vec<(i16, i16)> =
        piece.get_rotated_grid().iter().map(|offset| (5 + offset.0, 5 + offset.1)).collect();
    assert_eq!(cells, vec![(5, 3), (5, 4), (5, 5), (5, 6)]);
    loop {
        let lower = FallingTetromino::new(piece.piece, (piece.position.0, piece.position.1 + 1), 0);
        if !board.position_is_valid(&lower) {
            break;
        }
        piece = lower;
    }
    assert_eq!(piece.position, (5, 18));
    board.lock(&piece);
    assert_eq!(occupied_cells(&board), vec![(5, 16), (5, 17), (5, 18), (5, 19)]);
}
