use tetris::board::TetrisBoard;
use tetris::game::{Game, KeyOrder};
use tetris::piece::{FallingTetromino, Tetromino};
use tetris::render::{
    decimal_digits, terminal_size_for, Glyph, BOARD_LEFT, BOARD_TOP, MIN_COLUMNS, MIN_ROWS,
    PANEL_LEFT,
};

fn glyph(column: u16, row: u16, symbol: char) -> Glyph {
    Glyph { column, row, symbol }
}

fn text(glyphs: &[Glyph]) -> String {
    glyphs.iter().map(|g| g.symbol).collect()
}

#[test]
fn layout_constants() {
    assert_eq!((BOARD_LEFT, BOARD_TOP), (2, 2));
    assert_eq!(PANEL_LEFT, 15);
    assert_eq!((MIN_COLUMNS, MIN_ROWS), (20, 26));
}

#[test]
fn terminal_size_is_widened_to_the_minimum() {
    assert_eq!(terminal_size_for((0, 0)), (20, 26));
    assert_eq!(terminal_size_for((19, 25)), (20, 26));
    assert_eq!(terminal_size_for((20, 26)), (20, 26));
    assert_eq!(terminal_size_for((80, 24)), (80, 26));
    assert_eq!(terminal_size_for((10, 50)), (20, 50));
    assert_eq!(terminal_size_for((u16::MAX, u16::MAX)), (u16::MAX, u16::MAX));
}

#[test]
fn decimal_digits_of_numbers() {
    assert_eq!(decimal_digits(0), vec!['0']);
    assert_eq!(decimal_digits(7), vec!['7']);
    assert_eq!(decimal_digits(10), vec!['1', '0']);
    assert_eq!(decimal_digits(1203), vec!['1', '2', '0', '3']);
    assert_eq!(decimal_digits(9876543210).iter().collect::<String>(), "9876543210");
    assert_eq!(decimal_digits(u64::MAX).iter().collect::<String>(), u64::MAX.to_string());
}

#[test]
fn a_piece_is_drawn_at_its_cells() {
    let piece = FallingTetromino::new(Tetromino::Straight, (5, 5), 0);
    assert_eq!(
        piece.draw('@', (2, 2)),
        vec![glyph(7, 5, '@'), glyph(7, 6, '@'), glyph(7, 7, '@'), glyph(7, 8, '@')]
    );
    let turned = FallingTetromino::new(Tetromino::L(true), (1, 1), 1);
    assert_eq!(
        turned.draw('x', (10, 20)),
        vec![glyph(10, 21, 'x'), glyph(11, 21, 'x'), glyph(12, 21, 'x'), glyph(12, 20, 'x')]
    );
}

#[test]
fn a_piece_is_drawn_with_a_negative_offset() {
    let piece = FallingTetromino::new(Tetromino::Square, (3, 4), 0);
    assert_eq!(
        piece.draw('@', (-3, -4)),
        vec![glyph(0, 0, '@'), glyph(0, 1, '@'), glyph(1, 0, '@'), glyph(1, 1, '@')]
    );
}

#[test]
fn draw_piece_and_erase_piece() {
    let mut game = Game::with_pieces(Tetromino::T, Tetromino::Square);
    assert_eq!(
        game.draw_piece(),
        vec![glyph(5, 9, '@'), glyph(6, 9, '@'), glyph(5, 8, '@'), glyph(4, 9, '@')]
    );
    assert_eq!(
        game.erase_piece(),
        vec![glyph(5, 9, ' '), glyph(6, 9, ' '), glyph(5, 8, ' '), glyph(4, 9, ' ')]
    );
    game.dispatch(KeyOrder::Rotate);
    game.dispatch(KeyOrder::Right);
    assert_eq!(
        game.draw_piece(),
        vec![glyph(6, 9, '@'), glyph(6, 8, '@'), glyph(5, 9, '@'), glyph(6, 10, '@')]
    );
}

#[test]
fn nothing_is_drawn_for_the_piece_once_the_game_is_over() {
    let mut game = Game::with_pieces(Tetromino::Straight, Tetromino::Straight);
    while game.current_piece().is_some() {
        game.apply_delta((0, 1), 0, true, Tetromino::Straight);
    }
    assert_eq!(game.draw_piece(), Vec::new());
    assert_eq!(game.erase_piece(), Vec::new());
}

#[test]
fn the_frame() {
    let glyphs = TetrisBoard::new().draw();
    assert_eq!(glyphs.len(), 40 + 12 + 6 + 1 + 11);
    for row in 0..20u16 {
        assert_eq!(glyphs[2 * row as usize], glyph(1, 2 + row, '#'));
        assert_eq!(glyphs[2 * row as usize + 1], glyph(12, 2 + row, '#'));
    }
    for k in 0..12u16 {
        assert_eq!(glyphs[40 + k as usize], glyph(1 + k, 22, '#'));
    }
    assert_eq!(text(&glyphs[52..58]), "Score:");
    assert_eq!(glyphs[52], glyph(15, 2, 'S'));
    assert_eq!(glyphs[57], glyph(20, 2, ':'));
    assert_eq!(glyphs[58], glyph(15, 3, '0'));
    assert_eq!(text(&glyphs[59..70]), "Next piece:");
    assert_eq!(glyphs[59], glyph(15, 5, 'N'));
    assert_eq!(glyphs[69], glyph(25, 5, ':'));
}

#[test]
fn the_preview() {
    let game = Game::with_pieces(Tetromino::T, Tetromino::L(false));
    let glyphs = game.draw_next_piece();
    assert_eq!(glyphs.len(), 58);
    for k in 0..54u16 {
        assert_eq!(glyphs[k as usize], glyph(15 + k % 9, 6 + k / 9, ' '));
    }
    assert_eq!(glyphs[0], glyph(15, 6, ' '));
    assert_eq!(glyphs[53], glyph(23, 11, ' '));
    assert_eq!(
        glyphs[54..].to_vec(),
        vec![glyph(20, 8, '@'), glyph(20, 9, '@'), glyph(20, 10, '@'), glyph(19, 10, '@')]
    );
}

#[test]
fn the_board_is_the_frame_and_the_preview() {
    let game = Game::with_pieces(Tetromino::T, Tetromino::Square);
    let mut both = TetrisBoard::new().draw();
    both.extend(game.draw_next_piece());
    assert_eq!(game.draw_board(), both);
    assert_eq!(game.draw_board().len(), 70 + 58);
}

#[test]
fn the_interior_of_an_empty_board() {
    let game = Game::with_pieces(Tetromino::T, Tetromino::Square);
    let glyphs = game.redraw_interior();
    assert_eq!(glyphs.len(), 200);
    for k in 0..200u16 {
        assert_eq!(glyphs[k as usize], glyph(2 + k % 10, 2 + k / 10, ' '));
    }
}

#[test]
fn the_interior_shows_locked_cells_only() {
    let mut game = Game::with_pieces(Tetromino::Square, Tetromino::T);
    game.dispatch(KeyOrder::HardDrop);
    let glyphs = game.redraw_interior();
    let shown: Vec<Glyph> = glyphs.iter().copied().filter(|g| g.symbol != ' ').collect();
    assert_eq!(
        shown,
        vec![glyph(5, 20, '@'), glyph(6, 20, '@'), glyph(5, 21, '@'), glyph(6, 21, '@')]
    );
    assert_eq!(glyphs[0], glyph(2, 2, ' '));
    assert_eq!(glyphs[199], glyph(11, 21, ' '));
}

#[test]
fn the_score_is_drawn_in_decimal() {
    let mut game = Game::with_pieces(Tetromino::Straight, Tetromino::Square);
    assert_eq!(game.draw_score(), vec![glyph(15, 3, '0')]);
    game.dispatch(KeyOrder::HardDrop);
    assert_eq!(game.draw_score(), vec![glyph(15, 3, '2'), glyph(16, 3, '4')]);
    game.update_score(u64::MAX - 24);
    let glyphs = game.draw_score();
    assert_eq!(text(&glyphs), u64::MAX.to_string());
    assert_eq!(glyphs.len(), 20);
    assert_eq!(glyphs[19], glyph(34, 3, '5'));
}
