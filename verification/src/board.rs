//! The board: a 10 x 20 occupancy grid of locked cells, with the validity
//! check, locking, and the clearing of completed rows.

use crate::piece::{cell_view, cells_view, rotate_cells, FallingTetromino};
use vstd::prelude::*;

verus! {

/// Columns of the board.
pub const BOARD_WIDTH: usize = 10;

/// Rows of the board; row 0 is the top.
pub const BOARD_HEIGHT: usize = 20;

/// A grid is 20 rows of 10 cells.
pub open spec fn grid_wf(rows: Seq<Seq<bool>>) -> bool {
    &&& rows.len() == 20
    &&& forall|r: int| 0 <= r < 20 ==> (#[trigger] rows[r]).len() == 10
}

/// A row with no cell occupied.
pub open spec fn empty_row() -> Seq<bool> {
    Seq::new(10, |c: int| false)
}

/// The grid with no cell occupied.
pub open spec fn empty_grid() -> Seq<Seq<bool>> {
    Seq::new(20, |r: int| empty_row())
}

/// A (column, row) pair names a cell of the board.
pub open spec fn in_bounds(cell: (int, int)) -> bool {
    0 <= cell.0 <= 9 && 0 <= cell.1 <= 19
}

/// The cell is on the board and not occupied.
pub open spec fn cell_free(rows: Seq<Seq<bool>>, cell: (int, int)) -> bool {
    in_bounds(cell) && !rows[cell.1][cell.0]
}

/// Every cell of the list is on the board and not occupied.
pub open spec fn fits(rows: Seq<Seq<bool>>, cells: Seq<(int, int)>) -> bool {
    forall|i: int| 0 <= i < cells.len() ==> cell_free(rows, #[trigger] cells[i])
}

/// The grid with the cells of the list occupied as well.
pub open spec fn with_cells(rows: Seq<Seq<bool>>, cells: Seq<(int, int)>) -> Seq<Seq<bool>> {
    Seq::new(20, |r: int| Seq::new(10, |c: int| rows[r][c] || cells.contains((c, r))))
}

/// A row is complete when all 10 of its cells are occupied.
pub open spec fn row_is_full(row: Seq<bool>) -> bool {
    forall|c: int| 0 <= c < 10 ==> row[c]
}

/// The test that a row passes when it is not complete.
pub open spec fn is_kept() -> spec_fn(Seq<bool>) -> bool {
    |row: Seq<bool>| !row_is_full(row)
}

/// The rows that are not complete, in their order.
pub open spec fn kept_rows(rows: Seq<Seq<bool>>) -> Seq<Seq<bool>> {
    rows.filter(is_kept())
}

/// How many rows are complete.
pub open spec fn full_count(rows: Seq<Seq<bool>>) -> nat {
    (rows.len() - kept_rows(rows).len()) as nat
}

/// The grid once its complete rows are gone: the other rows keep their order
/// and sink to the bottom, and as many empty rows come in at the top.
pub open spec fn cleared(rows: Seq<Seq<bool>>) -> Seq<Seq<bool>> {
    Seq::new(full_count(rows), |r: int| empty_row()) + kept_rows(rows)
}

/// The grid in which the rows above `row` have sunk by one into it, and an
/// empty row has come in at the top.
pub open spec fn collapsed(rows: Seq<Seq<bool>>, row: int) -> Seq<Seq<bool>> {
    Seq::new(
        20,
        |r: int|
            if r == 0 {
                empty_row()
            } else if r <= row {
                rows[r - 1]
            } else {
                rows[r]
            },
    )
}

/// The occupancy grid, row-major, row 0 at the top. Only locked cells are in
/// it, never the piece in flight.
pub struct TetrisBoard {
    state: Vec<bool>,
}

impl View for TetrisBoard {
    type V = Seq<Seq<bool>>;

    closed spec fn view(&self) -> Seq<Seq<bool>> {
        Seq::new(20, |r: int| Seq::new(10, |c: int| self.state@[r * 10 + c]))
    }
}

impl TetrisBoard {
    /// The grid holds its 200 cells.
    pub closed spec fn wf(&self) -> bool {
        self.state@.len() == 200
    }

    /// The view of any board is a grid of 20 rows of 10.
    pub proof fn lemma_view_is_grid(&self)
        ensures
            grid_wf(self@),
    {
    }

    /// The empty board.
    pub fn new() -> (board: TetrisBoard)
        ensures
            board.wf(),
            board@ == empty_grid(),
    {
        let mut state: Vec<bool> = Vec::new();
        let mut i: usize = 0;
        while i < 200
            invariant
                i <= 200,
                state.len() == i,
                forall|k: int| 0 <= k < i ==> !state[k],
            decreases 200 - i,
        {
            state.push(false);
            i += 1;
        }
        let board = TetrisBoard { state };
        assert(board@ =~~= empty_grid());
        board
    }

    /// Whether the cell at (column, row) is occupied.
    pub fn is_occupied(&self, column: usize, row: usize) -> (occupied: bool)
        requires
            self.wf(),
            column < BOARD_WIDTH,
            row < BOARD_HEIGHT,
        ensures
            occupied == self@[row as int][column as int],
    {
        self.state[row * 10 + column]
    }

    /// Whether every cell of `piece` is on the board and not occupied. A
    /// piece with a cell left of column 0, right of column 9, above row 0 or
    /// below row 19 is never valid.
    pub fn position_is_valid(&self, piece: &FallingTetromino) -> (ok: bool)
        requires
            self.wf(),
            piece.wf(),
        ensures
            ok == fits(self@, piece.cells()),
            ok ==> forall|i: int| 0 <= i < 4 ==> in_bounds(#[trigger] piece.cells()[i]),
            ok ==> forall|i: int|
                0 <= i < 4 ==> !self@[(#[trigger] piece.cells()[i]).1][piece.cells()[i].0],
    {
        let grid = piece.get_rotated_grid();
        let ghost cells = piece.cells();
        proof {
            piece.piece.lemma_shape();
        }
        let mut i: usize = 0;
        while i < 4
            invariant
                i <= 4,
                self.wf(),
                grid.len() == 4,
                cells == piece.cells(),
                cells.len() == 4,
                cells_view(grid@) == rotate_cells(piece.piece.shape(), piece.angle as int),
                forall|j: int| 0 <= j < i ==> cell_free(self@, #[trigger] cells[j]),
            decreases 4 - i,
        {
            let offset = grid[i];
            assert(cell_view(offset) == cells_view(grid@)[i as int]);
            let column: i32 = piece.position.0 as i32 + offset.0 as i32;
            let row: i32 = piece.position.1 as i32 + offset.1 as i32;
            assert(cells[i as int] == (column as int, row as int));
            if column < 0 || column > 9 || row < 0 || row > 19 {
                assert(!cell_free(self@, cells[i as int]));
                return false;
            }
            if self.state[column as usize + 10 * row as usize] {
                assert(!cell_free(self@, cells[i as int]));
                return false;
            }
            i += 1;
        }
        true
    }

    /// Occupies the four cells of `piece`, and no other.
    pub fn lock(&mut self, piece: &FallingTetromino)
        requires
            old(self).wf(),
            piece.wf(),
            fits(old(self)@, piece.cells()),
        ensures
            final(self).wf(),
            final(self)@ == with_cells(old(self)@, piece.cells()),
            forall|i: int|
                0 <= i < 4 ==> final(self)@[(#[trigger] piece.cells()[i]).1][piece.cells()[i].0],
            forall|c: int, r: int|
                0 <= c < 10 && 0 <= r < 20 && !piece.cells().contains((c, r))
                    ==> #[trigger] final(self)@[r][c] == old(self)@[r][c],
    {
        let grid = piece.get_rotated_grid();
        let ghost cells = piece.cells();
        proof {
            piece.piece.lemma_shape();
        }
        let mut i: usize = 0;
        while i < 4
            invariant
                i <= 4,
                self.state@.len() == 200,
                old(self).state@.len() == 200,
                grid.len() == 4,
                cells == piece.cells(),
                cells.len() == 4,
                forall|j: int| 0 <= j < 4 ==> in_bounds(#[trigger] cells[j]),
                cells_view(grid@) == rotate_cells(piece.piece.shape(), piece.angle as int),
                forall|r: int, c: int|
                    0 <= r < 20 && 0 <= c < 10 ==> #[trigger] self.state@[r * 10 + c] == (old(self).state@[r
                        * 10 + c] || cells.take(i as int).contains((c, r))),
            decreases 4 - i,
        {
            let offset = grid[i];
            assert(cell_view(offset) == cells_view(grid@)[i as int]);
            let column: i32 = piece.position.0 as i32 + offset.0 as i32;
            let row: i32 = piece.position.1 as i32 + offset.1 as i32;
            assert(cells[i as int] == (column as int, row as int));
            assert(in_bounds(cells[i as int]));
            self.state.set(column as usize + 10 * row as usize, true);
            proof {
                let done = cells.take(i as int);
                let more = cells.take(i as int + 1);
                assert(more =~= done.push(cells[i as int]));
                assert forall|r: int, c: int| 0 <= r < 20 && 0 <= c < 10 implies #[trigger] self.state@[r
                    * 10 + c] == (old(self).state@[r * 10 + c] || more.contains((c, r))) by {
                    if r == row && c == column {
                        assert(more[i as int] == (c, r));
                    } else {
                        if done.contains((c, r)) {
                            let j = choose|j: int| 0 <= j < done.len() && done[j] == (c, r);
                            assert(more[j] == (c, r));
                        }
                        if more.contains((c, r)) {
                            let j = choose|j: int| 0 <= j < more.len() && more[j] == (c, r);
                            assert(j < i);
                            assert(done[j] == (c, r));
                        }
                    }
                }
            }
            i += 1;
        }
        assert(cells.take(4) =~= cells);
        assert(self@ =~~= with_cells(old(self)@, cells));
        assert forall|i: int| 0 <= i < 4 implies self@[(#[trigger] cells[i]).1][cells[i].0] by {
            assert(cells.contains(cells[i]));
        }
    }

    /// Removes every complete row, going from the bottom row upwards: the
    /// rows above a complete row sink by one, an empty row comes in at the
    /// top, and the same row is looked at again. Returns how many rows went.
    pub fn clean_lines(&mut self) -> (count: u8)
        requires
            old(self).wf(),
        ensures
            final(self).wf(),
            final(self)@ == cleared(old(self)@),
            count == full_count(old(self)@),
    {
        let ghost start = self@;
        let mut row: usize = 20;
        let mut n_clears: u8 = 0;
        proof {
            reveal(Seq::filter);
            assert(start.subrange(20, 20) =~= Seq::<Seq<bool>>::empty());
            assert(self@.subrange(20, 20) =~= Seq::new(0nat, |r: int| empty_row()) + kept_rows(
                start.subrange(20, 20),
            ));
        }
        while row > 0
            invariant
                self.wf(),
                row <= 20,
                grid_wf(start),
                n_clears + kept_rows(start.subrange(unseen(row as int, n_clears as int), 20)).len()
                    == 20 - unseen(row as int, n_clears as int),
                self@.subrange(row as int, 20) == Seq::new(
                    (20 - row - kept_rows(
                        start.subrange(unseen(row as int, n_clears as int), 20),
                    ).len()) as nat,
                    |r: int| empty_row(),
                ) + kept_rows(start.subrange(unseen(row as int, n_clears as int), 20)),
                forall|r: int|
                    0 <= r < row ==> #[trigger] self@[r] == if r < n_clears {
                        empty_row()
                    } else {
                        start[r - n_clears]
                    },
            decreases row + unseen(row as int, n_clears as int),
        {
            let ghost before = self@;
            let ghost e = unseen(row as int, n_clears as int);
            let ghost kept = kept_rows(start.subrange(e, 20));
            row -= 1;
            assert(!row_is_full(empty_row())) by {
                assert(!empty_row()[0]);
            }
            if self.row_is_complete(row) {
                assert(row >= n_clears);
                assert(before[row as int] == start[e - 1]);
                proof {
                    lemma_kept_rows_from(start, e - 1);
                }
                n_clears += 1;
                self.collapse(row);
                assert(self@.subrange(row as int + 1, 20) =~= before.subrange(row as int + 1, 20));
                row += 1;
            } else {
                proof {
                    if row >= n_clears {
                        assert(before[row as int] == start[e - 1]);
                        lemma_kept_rows_from(start, e - 1);
                        assert(self@.subrange(row as int, 20) =~= seq![start[e - 1]] + kept);
                        assert(self@.subrange(row as int, 20) =~= Seq::new(0nat, |r: int| empty_row())
                            + (seq![start[e - 1]] + kept));
                    } else {
                        assert(e == 0);
                        assert(before[row as int] == empty_row());
                        assert(self@.subrange(row as int, 20) =~= seq![empty_row()]
                            + before.subrange(row as int + 1, 20));
                        assert(self@.subrange(row as int, 20) =~= Seq::new(
                            (20 - row - kept.len()) as nat,
                            |r: int| empty_row(),
                        ) + kept);
                    }
                }
            }
        }
        assert(start.subrange(0, 20) =~= start);
        assert(self@.subrange(0, 20) =~= self@);
        n_clears
    }

    /// Whether all 10 cells of `row` are occupied.
    fn row_is_complete(&self, row: usize) -> (complete: bool)
        requires
            self.wf(),
            row < 20,
        ensures
            complete == row_is_full(self@[row as int]),
    {
        let mut i: usize = 0;
        while i < 10
            invariant
                i <= 10,
                row < 20,
                self.wf(),
                forall|c: int| 0 <= c < i ==> self@[row as int][c],
            decreases 10 - i,
        {
            if !self.state[row * 10 + i] {
                assert(!self@[row as int][i as int]);
                return false;
            }
            i += 1;
        }
        true
    }

    /// Lets the rows above `row` sink by one into it, and empties row 0.
    fn collapse(&mut self, row: usize)
        requires
            old(self).wf(),
            row < 20,
        ensures
            final(self).wf(),
            final(self)@ == collapsed(old(self)@, row as int),
    {
        let mut idx: usize = row * 10 + 10;
        while idx > 10
            invariant
                row < 20,
                10 <= idx <= row * 10 + 10,
                self.state@.len() == 200,
                old(self).state@.len() == 200,
                forall|k: int| 0 <= k < idx ==> self.state@[k] == old(self).state@[k],
                forall|k: int| idx <= k < row * 10 + 10 ==> self.state@[k] == old(self).state@[k - 10],
                forall|k: int| row * 10 + 10 <= k < 200 ==> self.state@[k] == old(self).state@[k],
            decreases idx,
        {
            idx -= 1;
            let above = self.state[idx - 10];
            self.state.set(idx, above);
        }
        let mut i: usize = 0;
        while i < 10
            invariant
                row < 20,
                i <= 10,
                self.state@.len() == 200,
                old(self).state@.len() == 200,
                forall|k: int| 0 <= k < i ==> !self.state@[k],
                forall|k: int| 10 <= k < row * 10 + 10 ==> self.state@[k] == old(self).state@[k - 10],
                forall|k: int| row * 10 + 10 <= k < 200 ==> self.state@[k] == old(self).state@[k],
            decreases 10 - i,
        {
            self.state.set(i, false);
            i += 1;
        }
        proof {
            let sunk = collapsed(old(self)@, row as int);
            assert forall|r: int| 0 <= r < 20 implies #[trigger] self@[r] =~= sunk[r] by {
                assert forall|c: int| 0 <= c < 10 implies self@[r][c] == sunk[r][c] by {
                    let k = r * 10 + c;
                    if r == 0 {
                        assert(!self.state@[k]);
                    } else if r <= row {
                        assert(self.state@[k] == old(self).state@[k - 10]);
                        assert(k - 10 == (r - 1) * 10 + c);
                    } else {
                        assert(self.state@[k] == old(self).state@[k]);
                    }
                }
            }
            assert(self@ =~= sunk);
        }
    }
}

/// A list of cells with one cell off the board does not fit, whatever the
/// grid holds.
pub proof fn lemma_off_board_does_not_fit(rows: Seq<Seq<bool>>, cells: Seq<(int, int)>, i: int)
    requires
        0 <= i < cells.len(),
        !in_bounds(cells[i]),
    ensures
        !fits(rows, cells),
{
    assert(!cell_free(rows, cells[i]));
}

/// Where no row is complete, clearing counts no row and leaves the grid as
/// it is.
pub proof fn lemma_clear_nothing(rows: Seq<Seq<bool>>)
    requires
        grid_wf(rows),
        forall|r: int| 0 <= r < 20 ==> !row_is_full(#[trigger] rows[r]),
    ensures
        full_count(rows) == 0,
        cleared(rows) == rows,
{
    lemma_kept_rows_all(rows);
    assert(cleared(rows) =~= rows);
}

/// Where exactly one row is complete, clearing counts one row; the rows
/// above it sink by one, row 0 is empty, and the rows below stay.
pub proof fn lemma_clear_one_row(rows: Seq<Seq<bool>>, full: int)
    requires
        grid_wf(rows),
        0 <= full < 20,
        forall|r: int| 0 <= r < 20 ==> (row_is_full(#[trigger] rows[r]) <==> r == full),
    ensures
        full_count(rows) == 1,
        cleared(rows) == collapsed(rows, full),
        cleared(rows)[0] == empty_row(),
        forall|r: int| 1 <= r <= full ==> #[trigger] cleared(rows)[r] == rows[r - 1],
        forall|r: int| full < r < 20 ==> #[trigger] cleared(rows)[r] == rows[r],
{
    lemma_kept_rows_split(rows, full);
    lemma_kept_rows_all(rows.subrange(0, full));
    lemma_kept_rows_all(rows.subrange(full + 1, 20));
    assert(cleared(rows) =~= collapsed(rows, full));
}

/// Where exactly four rows are complete, clearing counts four rows.
pub proof fn lemma_clear_four_rows(rows: Seq<Seq<bool>>, a: int, b: int, c: int, d: int)
    requires
        grid_wf(rows),
        0 <= a < b < c < d < 20,
        forall|r: int|
            0 <= r < 20 ==> (row_is_full(#[trigger] rows[r]) <==> r == a || r == b || r == c || r
                == d),
    ensures
        full_count(rows) == 4,
{
    let up_to_d = rows.subrange(0, d);
    let up_to_c = up_to_d.subrange(0, c);
    let up_to_b = up_to_c.subrange(0, b);
    lemma_kept_rows_split(rows, d);
    lemma_kept_rows_all(rows.subrange(d + 1, 20));
    lemma_kept_rows_split(up_to_d, c);
    lemma_kept_rows_all(up_to_d.subrange(c + 1, d));
    lemma_kept_rows_split(up_to_c, b);
    lemma_kept_rows_all(up_to_c.subrange(b + 1, c));
    lemma_kept_rows_split(up_to_b, a);
    lemma_kept_rows_all(up_to_b.subrange(a + 1, b));
    lemma_kept_rows_all(up_to_b.subrange(0, a));
}

/// Occupying four cells of a grid that has no complete row completes at most
/// four rows.
pub proof fn lemma_lock_completes_at_most_four(rows: Seq<Seq<bool>>, cells: Seq<(int, int)>)
    requires
        grid_wf(rows),
        cells.len() == 4,
        forall|r: int| 0 <= r < 20 ==> !row_is_full(#[trigger] rows[r]),
    ensures
        full_count(with_cells(rows, cells)) <= 4,
{
    lemma_full_rows_above(rows, cells, 20);
    assert(with_cells(rows, cells).subrange(0, 20) =~= with_cells(rows, cells));
}

/// After the complete rows are gone the grid is a grid still, and none of its
/// rows is complete.
pub proof fn lemma_cleared_has_no_full_row(rows: Seq<Seq<bool>>)
    requires
        grid_wf(rows),
    ensures
        grid_wf(cleared(rows)),
        forall|r: int| 0 <= r < 20 ==> !row_is_full(#[trigger] cleared(rows)[r]),
{
    let kept = kept_rows(rows);
    rows.lemma_filter_len(is_kept());
    assert(!row_is_full(empty_row())) by {
        assert(!empty_row()[0]);
    }
    assert forall|r: int| 0 <= r < 20 implies !row_is_full(#[trigger] cleared(rows)[r]) && cleared(
        rows,
    )[r].len() == 10 by {
        if r >= full_count(rows) {
            let k = r - full_count(rows);
            rows.lemma_filter_pred(is_kept(), k);
            assert(cleared(rows)[r] == kept[k]);
            rows.lemma_filter_contains_rev(is_kept(), kept[k]);
        }
    }
}

/// Where no row is complete, all rows are kept.
pub proof fn lemma_kept_rows_all(rows: Seq<Seq<bool>>)
    requires
        forall|r: int| 0 <= r < rows.len() ==> !row_is_full(#[trigger] rows[r]),
    ensures
        kept_rows(rows) == rows,
    decreases rows.len(),
{
    reveal(Seq::filter);
    if rows.len() > 0 {
        lemma_kept_rows_all(rows.drop_last());
        assert(rows.drop_last().push(rows.last()) =~= rows);
    }
}

/// The rows kept of a grid are those kept above row `at`, then that row
/// unless it is complete, then those kept below it.
pub proof fn lemma_kept_rows_split(rows: Seq<Seq<bool>>, at: int)
    requires
        0 <= at < rows.len(),
    ensures
        kept_rows(rows) == kept_rows(rows.subrange(0, at)) + (if row_is_full(rows[at]) {
            Seq::<Seq<bool>>::empty()
        } else {
            seq![rows[at]]
        }) + kept_rows(rows.subrange(at + 1, rows.len() as int)),
{
    let above = rows.subrange(0, at);
    let below = rows.subrange(at, rows.len() as int);
    assert(rows =~= above + below);
    Seq::filter_distributes_over_add(above, below, is_kept());
    lemma_kept_rows_from(rows, at);
    if row_is_full(rows[at]) {
        assert(kept_rows(above) + Seq::<Seq<bool>>::empty() =~= kept_rows(above));
    } else {
        let rest = kept_rows(rows.subrange(at + 1, rows.len() as int));
        assert(kept_rows(above) + (seq![rows[at]] + rest) =~= kept_rows(above) + seq![rows[at]]
            + rest);
    }
}

/// The rows kept from `from` downwards are the row at `from`, unless it is
/// complete, and then those kept from the next row downwards.
proof fn lemma_kept_rows_from(rows: Seq<Seq<bool>>, from: int)
    requires
        0 <= from < rows.len(),
    ensures
        kept_rows(rows.subrange(from, rows.len() as int)) == if row_is_full(rows[from]) {
            kept_rows(rows.subrange(from + 1, rows.len() as int))
        } else {
            seq![rows[from]] + kept_rows(rows.subrange(from + 1, rows.len() as int))
        },
{
    let head = seq![rows[from]];
    let tail = rows.subrange(from + 1, rows.len() as int);
    assert(rows.subrange(from, rows.len() as int) =~= head + tail);
    Seq::filter_distributes_over_add(head, tail, is_kept());
    reveal_with_fuel(Seq::filter, 2);
    assert(head.drop_last() =~= Seq::<Seq<bool>>::empty());
    assert(head.last() == rows[from]);
    if row_is_full(rows[from]) {
        assert(head.filter(is_kept()) =~= Seq::<Seq<bool>>::empty());
        assert(head.filter(is_kept()) + tail.filter(is_kept()) =~= tail.filter(is_kept()));
    } else {
        assert(head.filter(is_kept()) =~= head);
    }
}

/// How many of four cells lie in a row above `row`.
spec fn cells_above(cells: Seq<(int, int)>, row: int) -> int {
    (if cells[0].1 < row { 1int } else { 0int }) + (if cells[1].1 < row { 1int } else { 0int })
        + (if cells[2].1 < row { 1int } else { 0int }) + (if cells[3].1 < row { 1int } else { 0int })
}

/// Among the first `upto` rows, no more rows are complete after four cells
/// were occupied than cells lie in those rows.
proof fn lemma_full_rows_above(rows: Seq<Seq<bool>>, cells: Seq<(int, int)>, upto: int)
    requires
        grid_wf(rows),
        cells.len() == 4,
        forall|r: int| 0 <= r < 20 ==> !row_is_full(#[trigger] rows[r]),
        0 <= upto <= 20,
    ensures
        upto - kept_rows(with_cells(rows, cells).subrange(0, upto)).len() <= cells_above(
            cells,
            upto,
        ),
    decreases upto,
{
    let locked = with_cells(rows, cells);
    reveal(Seq::filter);
    if upto == 0 {
        assert(locked.subrange(0, 0) =~= Seq::<Seq<bool>>::empty());
    } else {
        lemma_full_rows_above(rows, cells, upto - 1);
        let prefix = locked.subrange(0, upto);
        assert(prefix.drop_last() =~= locked.subrange(0, upto - 1));
        assert(prefix.last() == locked[upto - 1]);
        if row_is_full(locked[upto - 1]) {
            assert(!row_is_full(rows[upto - 1]));
            let gap = rows[upto - 1];
            let c = choose|c: int| 0 <= c < 10 && !#[trigger] gap[c];
            assert(locked[upto - 1][c]);
            assert(cells.contains((c, upto - 1)));
            let j = choose|j: int| 0 <= j < cells.len() && cells[j] == (c, upto - 1);
            assert(cells[j].1 == upto - 1);
            assert(cells_above(cells, upto) >= cells_above(cells, upto - 1) + 1);
        }
    }
}

/// While the rows are gone through from the bottom, with `row` rows still to
/// look at and `n_clears` rows gone: how many rows of the first grid have not
/// been looked at yet.
spec fn unseen(row: int, n_clears: int) -> int {
    if row > n_clears {
        row - n_clears
    } else {
        0
    }
}

} // verus!
