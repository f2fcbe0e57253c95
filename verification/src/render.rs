//! The screen as lists of glyphs: which symbol goes to which terminal cell
//! for the frame, the locked cells, the piece in flight, the preview of the
//! next kind and the score. Painting the lists is left to the caller.

use crate::board::TetrisBoard;
use crate::game::Game;
use crate::piece::{
    cell_view, cells_view, lemma_placed_cells, lemma_rotate_cell, rotate_cells, FallingTetromino,
    Tetromino,
};
use vstd::prelude::*;

verus! {

/// The terminal column of the board's column 0.
pub const BOARD_LEFT: u16 = 2;

/// The terminal row of the board's row 0.
pub const BOARD_TOP: u16 = 2;

/// The terminal column where the score and the preview begin.
pub const PANEL_LEFT: u16 = 15;

/// The fewest terminal columns that hold the screen.
pub const MIN_COLUMNS: u16 = 20;

/// The fewest terminal rows that hold the screen.
pub const MIN_ROWS: u16 = 26;

/// One symbol at one terminal cell.
#[derive(Clone, Copy, Debug, PartialEq, Eq, Structural)]
pub struct Glyph {
    pub column: u16,
    pub row: u16,
    pub symbol: char,
}

/// The glyph that puts `symbol` at (column, row).
pub open spec fn glyph_at(column: int, row: int, symbol: char) -> Glyph {
    Glyph { column: column as u16, row: row as u16, symbol }
}

/// One glyph of `fill` for each cell, the cells counted from `origin`.
pub open spec fn cell_glyphs(cells: Seq<(int, int)>, origin: (int, int), fill: char) -> Seq<
    Glyph,
> {
    Seq::new(cells.len(), |i: int| glyph_at(origin.0 + cells[i].0, origin.1 + cells[i].1, fill))
}

/// The characters of `text` side by side in `row`, the first at `column`.
pub open spec fn text_glyphs(text: Seq<char>, column: int, row: int) -> Seq<Glyph> {
    Seq::new(text.len(), |i: int| glyph_at(column + i, row, text[i]))
}

/// The two walls: for each of the board's 20 rows, top to bottom, the left
/// wall and then the right wall.
pub open spec fn wall_glyphs() -> Seq<Glyph> {
    Seq::new(
        40,
        |k: int|
            glyph_at(
                if k % 2 == 0 {
                    1
                } else {
                    12
                },
                2 + k / 2,
                '#',
            ),
    )
}

/// The floor under the board and the walls.
pub open spec fn floor_glyphs() -> Seq<Glyph> {
    Seq::new(12, |k: int| glyph_at(1 + k, 22, '#'))
}

/// The words over the score.
pub open spec fn score_label() -> Seq<char> {
    seq!['S', 'c', 'o', 'r', 'e', ':']
}

/// The words over the preview.
pub open spec fn next_label() -> Seq<char> {
    seq!['N', 'e', 'x', 't', ' ', 'p', 'i', 'e', 'c', 'e', ':']
}

/// The frame: walls, floor, the score's label with a score of 0 under it,
/// and the preview's label.
pub open spec fn frame_glyphs() -> Seq<Glyph> {
    wall_glyphs() + floor_glyphs() + text_glyphs(score_label(), 15, 2) + text_glyphs(
        seq!['0'],
        15,
        3,
    ) + text_glyphs(next_label(), 15, 5)
}

/// The preview's box blanked: six rows of nine blanks, row by row.
pub open spec fn blank_glyphs() -> Seq<Glyph> {
    Seq::new(54, |k: int| glyph_at(15 + k % 9, 6 + k / 9, ' '))
}

/// The preview: its box blanked, then the shape of `kind` around the
/// terminal cell (20, 9).
pub open spec fn preview_glyphs(kind: Tetromino) -> Seq<Glyph> {
    blank_glyphs() + cell_glyphs(kind.shape(), (20, 9), '@')
}

/// The board's 200 cells, row by row: `@` where a cell is occupied, a blank
/// where it is not.
pub open spec fn interior_glyphs(rows: Seq<Seq<bool>>) -> Seq<Glyph> {
    Seq::new(
        200,
        |k: int|
            glyph_at(
                2 + k % 10,
                2 + k / 10,
                if rows[k / 10][k % 10] {
                    '@'
                } else {
                    ' '
                },
            ),
    )
}

/// The character of a decimal digit.
pub open spec fn digit(d: nat) -> char {
    if d == 0 {
        '0'
    } else if d == 1 {
        '1'
    } else if d == 2 {
        '2'
    } else if d == 3 {
        '3'
    } else if d == 4 {
        '4'
    } else if d == 5 {
        '5'
    } else if d == 6 {
        '6'
    } else if d == 7 {
        '7'
    } else if d == 8 {
        '8'
    } else {
        '9'
    }
}

/// A number in decimal, without leading zeros.
pub open spec fn decimal(n: nat) -> Seq<char>
    decreases n,
{
    if n < 10 {
        seq![digit(n)]
    } else {
        decimal(n / 10).push(digit(n % 10))
    }
}

/// The score in decimal under its label.
pub open spec fn score_glyphs(score: nat) -> Seq<Glyph> {
    text_glyphs(decimal(score), 15, 3)
}

/// A decimal number has at most twenty digits if it fits in 64 bits.
pub proof fn lemma_decimal_len(n: nat)
    ensures
        1 <= decimal(n).len(),
        n < 10 ==> decimal(n).len() == 1,
        n <= u64::MAX ==> decimal(n).len() <= 20,
    decreases n,
{
    if n >= 10 {
        lemma_decimal_len(n / 10);
        if n <= u64::MAX {
            assert(pow10(19) == 10_000_000_000_000_000_000) by {
                reveal_with_fuel(pow10, 20);
            }
            lemma_decimal_len_below(n / 10, 19);
        }
    }
}

/// A number below ten to the power of `digits` has at most `digits` digits.
proof fn lemma_decimal_len_below(n: nat, digits: nat)
    requires
        digits >= 1,
        n < pow10(digits),
    ensures
        decimal(n).len() <= digits,
    decreases digits,
{
    if n >= 10 {
        if digits == 1 {
            assert(pow10(1) == 10) by {
                reveal_with_fuel(pow10, 2);
            }
        } else {
            lemma_decimal_len_below(n / 10, (digits - 1) as nat);
        }
    }
}

/// Ten to the power of `e`.
spec fn pow10(e: nat) -> nat
    decreases e,
{
    if e == 0 {
        1
    } else {
        10 * pow10((e - 1) as nat)
    }
}

/// The terminal size to ask for: the actual one, widened to at least 20
/// columns and 26 rows.
pub fn terminal_size_for(actual: (u16, u16)) -> (wanted: (u16, u16))
    ensures
        wanted.0 == if actual.0 >= 20 {
            actual.0
        } else {
            20
        },
        wanted.1 == if actual.1 >= 26 {
            actual.1
        } else {
            26
        },
{
    (
        if actual.0 >= MIN_COLUMNS {
            actual.0
        } else {
            MIN_COLUMNS
        },
        if actual.1 >= MIN_ROWS {
            actual.1
        } else {
            MIN_ROWS
        },
    )
}

/// The character of the decimal digit `d`.
fn digit_char(d: u8) -> (symbol: char)
    requires
        d < 10,
    ensures
        symbol == digit(d as nat),
{
    if d == 0 {
        '0'
    } else if d == 1 {
        '1'
    } else if d == 2 {
        '2'
    } else if d == 3 {
        '3'
    } else if d == 4 {
        '4'
    } else if d == 5 {
        '5'
    } else if d == 6 {
        '6'
    } else if d == 7 {
        '7'
    } else if d == 8 {
        '8'
    } else {
        '9'
    }
}

/// The decimal digits of `n`, the most significant first.
pub fn decimal_digits(n: u64) -> (digits: Vec<char>)
    ensures
        digits@ == decimal(n as nat),
    decreases n,
{
    if n < 10 {
        let mut digits: Vec<char> = Vec::new();
        digits.push(digit_char(n as u8));
        digits
    } else {
        let mut digits = decimal_digits(n / 10);
        digits.push(digit_char((n % 10) as u8));
        digits
    }
}

/// Appends the glyphs of `text`, written in `row` from `column` on.
fn push_text(glyphs: &mut Vec<Glyph>, text: &Vec<char>, column: u16, row: u16)
    requires
        column + text.len() <= u16::MAX,
    ensures
        final(glyphs)@ == old(glyphs)@ + text_glyphs(text@, column as int, row as int),
{
    let ghost before = glyphs@;
    let mut i: usize = 0;
    while i < text.len()
        invariant
            i <= text.len(),
            column + text.len() <= u16::MAX,
            glyphs@ == before + text_glyphs(text@, column as int, row as int).take(i as int),
        decreases text.len() - i,
    {
        let glyph = Glyph { column: column + i as u16, row, symbol: text[i] };
        assert(glyph == text_glyphs(text@, column as int, row as int)[i as int]);
        glyphs.push(glyph);
        i += 1;
    }
    assert(text_glyphs(text@, column as int, row as int).take(text.len() as int) =~= text_glyphs(
        text@,
        column as int,
        row as int,
    ));
}

impl FallingTetromino {
    /// The four glyphs that show the piece with `fill`, on a board whose
    /// cell (0, 0) is at the terminal cell `board_offset`. The terminal cells
    /// must have coordinates from 0 to `i16::MAX`.
    pub fn draw(&self, fill: char, board_offset: (i16, i16)) -> (glyphs: Vec<Glyph>)
        requires
            self.wf(),
            forall|i: int|
                0 <= i < 4 ==> 0 <= board_offset.0 + (#[trigger] self.cells()[i]).0 <= i16::MAX
                    && 0 <= board_offset.1 + self.cells()[i].1 <= i16::MAX,
        ensures
            glyphs@ == cell_glyphs(self.cells(), cell_view(board_offset), fill),
    {
        let points = self.get_rotated_grid();
        let ghost cells = self.cells();
        proof {
            self.piece.lemma_shape();
        }
        let mut glyphs: Vec<Glyph> = Vec::new();
        let mut i: usize = 0;
        while i < 4
            invariant
                i <= 4,
                points.len() == 4,
                cells == self.cells(),
                cells.len() == 4,
                cells_view(points@) == rotate_cells(self.piece.shape(), self.angle as int),
                forall|j: int|
                    0 <= j < 4 ==> 0 <= board_offset.0 + (#[trigger] cells[j]).0 <= i16::MAX && 0
                        <= board_offset.1 + cells[j].1 <= i16::MAX,
                glyphs@ == cell_glyphs(cells, cell_view(board_offset), fill).take(i as int),
            decreases 4 - i,
        {
            let point = points[i];
            assert(cell_view(point) == cells_view(points@)[i as int]);
            let column: i32 = self.position.0 as i32 + point.0 as i32 + board_offset.0 as i32;
            let row: i32 = self.position.1 as i32 + point.1 as i32 + board_offset.1 as i32;
            assert(cells[i as int] == (
                self.position.0 + point.0 as int,
                self.position.1 + point.1 as int,
            ));
            glyphs.push(Glyph { column: column as u16, row: row as u16, symbol: fill });
            i += 1;
        }
        assert(cell_glyphs(cells, cell_view(board_offset), fill).take(4) =~= cell_glyphs(
            cells,
            cell_view(board_offset),
            fill,
        ));
        glyphs
    }
}

impl TetrisBoard {
    /// The frame around the board, with the labels of the score and of the
    /// preview and a score of 0.
    pub fn draw(&self) -> (glyphs: Vec<Glyph>)
        ensures
            glyphs@ == frame_glyphs(),
    {
        let mut glyphs: Vec<Glyph> = Vec::new();
        let mut i: u16 = 0;
        while i < 20
            invariant
                i <= 20,
                glyphs@ == wall_glyphs().take(2 * i),
            decreases 20 - i,
        {
            glyphs.push(Glyph { column: BOARD_LEFT - 1, row: BOARD_TOP + i, symbol: '#' });
            glyphs.push(Glyph { column: BOARD_LEFT + 10, row: BOARD_TOP + i, symbol: '#' });
            i += 1;
        }
        let mut k: u16 = 0;
        while k < 12
            invariant
                k <= 12,
                glyphs@ == wall_glyphs() + floor_glyphs().take(k as int),
            decreases 12 - k,
        {
            glyphs.push(Glyph { column: BOARD_LEFT - 1 + k, row: BOARD_TOP + 20, symbol: '#' });
            k += 1;
        }
        let score: Vec<char> = vec!['S', 'c', 'o', 'r', 'e', ':'];
        push_text(&mut glyphs, &score, PANEL_LEFT, 2);
        let zero: Vec<char> = vec!['0'];
        push_text(&mut glyphs, &zero, PANEL_LEFT, 3);
        let next: Vec<char> = vec!['N', 'e', 'x', 't', ' ', 'p', 'i', 'e', 'c', 'e', ':'];
        push_text(&mut glyphs, &next, PANEL_LEFT, 5);
        glyphs
    }
}

impl Game {
    /// The preview of the next kind: its box blanked, then its shape.
    pub fn draw_next_piece(&self) -> (glyphs: Vec<Glyph>)
        ensures
            glyphs@ == preview_glyphs(self@.next),
    {
        let mut glyphs: Vec<Glyph> = Vec::new();
        let mut k: u16 = 0;
        while k < 54
            invariant
                k <= 54,
                glyphs@ == blank_glyphs().take(k as int),
            decreases 54 - k,
        {
            glyphs.push(Glyph { column: PANEL_LEFT + k % 9, row: 6 + k / 9, symbol: ' ' });
            k += 1;
        }
        let kind = self.next_piece();
        let shown = FallingTetromino::new(kind, (0, 0), 0);
        proof {
            lemma_placed_cells(kind, 0, 0, 0);
            kind.lemma_shape();
            assert forall|i: int| 0 <= i < 4 implies #[trigger] shown.cells()[i]
                == kind.shape()[i] by {
                lemma_rotate_cell(kind.shape()[i], 0);
            }
        }
        let mut shape = shown.draw('@', (20, 9));
        glyphs.append(&mut shape);
        glyphs
    }

    /// The frame and the preview.
    pub fn draw_board(&self) -> (glyphs: Vec<Glyph>)
        ensures
            glyphs@ == frame_glyphs() + preview_glyphs(self@.next),
    {
        let mut glyphs = self.board().draw();
        let mut preview = self.draw_next_piece();
        glyphs.append(&mut preview);
        glyphs
    }

    /// The piece in flight as four glyphs of `fill`; nothing once the game
    /// is over.
    fn piece_glyphs(&self, fill: char) -> (glyphs: Vec<Glyph>)
        requires
            self.wf(),
        ensures
            glyphs@ == match self@.current {
                Some(p) => cell_glyphs(p.cells(), (2, 2), fill),
                None => Seq::<Glyph>::empty(),
            },
    {
        proof {
            self.lemma_wf();
        }
        match self.current_piece() {
            Some(piece) => {
                proof {
                    lemma_placed_cells(
                        piece.piece,
                        piece.position.0 as int,
                        piece.position.1 as int,
                        piece.angle as int,
                    );
                }
                piece.draw(fill, (BOARD_LEFT as i16, BOARD_TOP as i16))
            },
            None => Vec::new(),
        }
    }

    /// The piece in flight, shown with `@`.
    pub fn draw_piece(&self) -> (glyphs: Vec<Glyph>)
        requires
            self.wf(),
        ensures
            glyphs@ == match self@.current {
                Some(p) => cell_glyphs(p.cells(), (2, 2), '@'),
                None => Seq::<Glyph>::empty(),
            },
    {
        self.piece_glyphs('@')
    }

    /// The piece in flight, blanked out.
    pub fn erase_piece(&self) -> (glyphs: Vec<Glyph>)
        requires
            self.wf(),
        ensures
            glyphs@ == match self@.current {
                Some(p) => cell_glyphs(p.cells(), (2, 2), ' '),
                None => Seq::<Glyph>::empty(),
            },
    {
        self.piece_glyphs(' ')
    }

    /// All cells of the board, row by row.
    pub fn redraw_interior(&self) -> (glyphs: Vec<Glyph>)
        requires
            self.wf(),
        ensures
            glyphs@ == interior_glyphs(self@.rows),
    {
        let board = self.board();
        let mut glyphs: Vec<Glyph> = Vec::new();
        let mut k: u16 = 0;
        while k < 200
            invariant
                k <= 200,
                board.wf(),
                board@ == self@.rows,
                glyphs@ == interior_glyphs(self@.rows).take(k as int),
            decreases 200 - k,
        {
            let symbol = if board.is_occupied((k % 10) as usize, (k / 10) as usize) {
                '@'
            } else {
                ' '
            };
            glyphs.push(Glyph { column: BOARD_LEFT + k % 10, row: BOARD_TOP + k / 10, symbol });
            k += 1;
        }
        glyphs
    }

    /// The score in decimal, under its label.
    pub fn draw_score(&self) -> (glyphs: Vec<Glyph>)
        ensures
            glyphs@ == score_glyphs(self@.score),
    {
        let digits = decimal_digits(self.score());
        proof {
            lemma_decimal_len(self@.score);
        }
        let mut glyphs: Vec<Glyph> = Vec::new();
        push_text(&mut glyphs, &digits, PANEL_LEFT, 3);
        glyphs
    }
}

} // verus!
