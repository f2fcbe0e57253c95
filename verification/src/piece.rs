//! Piece kinds, their canonical shapes, and rotation about the pivot.

use vstd::prelude::*;

verus! {

/// The five piece kinds. The flag of `Z` and `L` picks one of the two mirror
/// images; it is fixed when the piece is made.
#[derive(Clone, Copy, Debug, PartialEq, Eq, Structural)]
pub enum Tetromino {
    Straight,
    Square,
    Z(bool),
    L(bool),
    T,
}

/// A piece in flight: its kind, the board cell of its pivot as
/// (column, row), and its rotation state.
#[derive(Clone, Copy, Debug, PartialEq, Eq)]
pub struct FallingTetromino {
    pub piece: Tetromino,
    pub position: (i16, i16),
    pub angle: u8,
}

/// A (column, row) pair of machine integers as a pair of mathematical ones.
pub open spec fn cell_view(cell: (i16, i16)) -> (int, int) {
    (cell.0 as int, cell.1 as int)
}

/// A list of (column, row) pairs as mathematical integers.
pub open spec fn cells_view(cells: Seq<(i16, i16)>) -> Seq<(int, int)> {
    Seq::new(cells.len(), |i: int| cell_view(cells[i]))
}

/// The rotation matrix of a rotation state, row by row:
/// identity, a quarter turn, a half turn, three quarter turns.
pub open spec fn rotation_matrix(angle: int) -> (int, int, int, int) {
    if angle == 0 {
        (1, 0, 0, 1)
    } else if angle == 1 {
        (0, 1, -1, 0)
    } else if angle == 2 {
        (-1, 0, 0, -1)
    } else {
        (0, -1, 1, 0)
    }
}

/// One offset under the matrix of `angle`.
pub open spec fn rotate_cell(cell: (int, int), angle: int) -> (int, int) {
    let m = rotation_matrix(angle);
    (cell.0 * m.0 + cell.1 * m.1, cell.0 * m.2 + cell.1 * m.3)
}

/// What the four matrices do to an offset, written out.
pub proof fn lemma_rotate_cell(cell: (int, int), angle: int)
    ensures
        angle == 0 ==> rotate_cell(cell, angle) == cell,
        angle == 1 ==> rotate_cell(cell, angle) == (cell.1, -cell.0),
        angle == 2 ==> rotate_cell(cell, angle) == (-cell.0, -cell.1),
        angle == 3 ==> rotate_cell(cell, angle) == (-cell.1, cell.0),
{
    let m = rotation_matrix(angle);
    if angle == 0 {
        assert(m == (1int, 0int, 0int, 1int));
    } else if angle == 1 {
        assert(m == (0int, 1int, -1int, 0int));
    } else if angle == 2 {
        assert(m == (-1int, 0int, 0int, -1int));
    } else if angle == 3 {
        assert(m == (0int, -1int, 1int, 0int));
    }
}

/// Every offset of a list under the matrix of `angle`, in order.
pub open spec fn rotate_cells(cells: Seq<(int, int)>, angle: int) -> Seq<(int, int)> {
    Seq::new(cells.len(), |i: int| rotate_cell(cells[i], angle))
}

/// Turning by `first` and then by `second` is turning by their sum, counted
/// modulo four: the four rotation states form a cyclic group.
pub proof fn lemma_rotation_composes(cells: Seq<(int, int)>, first: int, second: int)
    requires
        0 <= first < 4,
        0 <= second < 4,
    ensures
        rotate_cells(rotate_cells(cells, first), second) == rotate_cells(
            cells,
            (first + second) % 4,
        ),
{
    let once = rotate_cells(cells, first);
    let twice = rotate_cells(once, second);
    let direct = rotate_cells(cells, (first + second) % 4);
    assert forall|i: int| 0 <= i < cells.len() implies twice[i] == direct[i] by {
        lemma_rotate_cell(cells[i], first);
        lemma_rotate_cell(once[i], second);
        lemma_rotate_cell(cells[i], (first + second) % 4);
    }
}

/// Applying the rotation of any one state four times gives the offsets back.
pub proof fn lemma_rotation_order_four(cells: Seq<(int, int)>, angle: int)
    requires
        0 <= angle < 4,
    ensures
        rotate_cells(rotate_cells(rotate_cells(rotate_cells(cells, angle), angle), angle), angle)
            == cells,
{
    let once = rotate_cells(cells, angle);
    let twice = rotate_cells(once, angle);
    let thrice = rotate_cells(twice, angle);
    let back = rotate_cells(thrice, angle);
    assert forall|i: int| 0 <= i < cells.len() implies back[i] == cells[i] by {
        lemma_rotate_cell(cells[i], angle);
        lemma_rotate_cell(once[i], angle);
        lemma_rotate_cell(twice[i], angle);
        lemma_rotate_cell(thrice[i], angle);
    }
}

/// The cells of a shape once rotated and moved to a pivot.
pub open spec fn placed_cells(shape: Seq<(int, int)>, column: int, row: int, angle: int) -> Seq<
    (int, int),
> {
    Seq::new(
        shape.len(),
        |i: int| (column + rotate_cell(shape[i], angle).0, row + rotate_cell(shape[i], angle).1),
    )
}

/// A placed piece has four cells, each within two of the pivot, and the
/// pivot is one of them.
pub proof fn lemma_placed_cells(kind: Tetromino, column: int, row: int, angle: int)
    requires
        0 <= angle < 4,
    ensures
        placed_cells(kind.shape(), column, row, angle).len() == 4,
        forall|i: int|
            0 <= i < 4 ==> column - 2 <= (#[trigger] placed_cells(
                kind.shape(),
                column,
                row,
                angle,
            )[i]).0 <= column + 2 && row - 2 <= placed_cells(kind.shape(), column, row, angle)[i].1
                <= row + 2,
        exists|i: int|
            0 <= i < 4 && #[trigger] placed_cells(kind.shape(), column, row, angle)[i] == (
                column,
                row,
            ),
{
    kind.lemma_shape();
    let placed = placed_cells(kind.shape(), column, row, angle);
    assert forall|i: int| 0 <= i < 4 implies column - 2 <= (#[trigger] placed[i]).0 <= column + 2
        && row - 2 <= placed[i].1 <= row + 2 by {
        lemma_rotate_cell(kind.shape()[i], angle);
    }
    let pivot = choose|i: int| 0 <= i < 4 && #[trigger] kind.shape()[i] == (0int, 0int);
    lemma_rotate_cell(kind.shape()[pivot], angle);
    assert(placed[pivot] == (column, row));
}

impl Tetromino {
    /// The four pivot-relative offsets of a kind, in canonical order.
    pub open spec fn shape(self) -> Seq<(int, int)> {
        match self {
            Tetromino::Straight => seq![(0int, -2int), (0int, -1int), (0int, 0int), (0int, 1int)],
            Tetromino::Square => seq![(0int, 0int), (0int, 1int), (1int, 0int), (1int, 1int)],
            Tetromino::T => seq![(0int, 0int), (1int, 0int), (0int, -1int), (-1int, 0int)],
            Tetromino::L(real_l) => if real_l {
                seq![(0int, -1int), (0int, 0int), (0int, 1int), (1int, 1int)]
            } else {
                seq![(0int, -1int), (0int, 0int), (0int, 1int), (-1int, 1int)]
            },
            Tetromino::Z(real_z) => if real_z {
                seq![(0int, 0int), (0int, -1int), (-1int, -1int), (1int, 0int)]
            } else {
                seq![(0int, 0int), (0int, -1int), (1int, -1int), (-1int, 0int)]
            },
        }
    }

    /// Every shape has four offsets, none further than two from the pivot,
    /// and the pivot itself is one of them.
    pub proof fn lemma_shape(self)
        ensures
            self.shape().len() == 4,
            forall|i: int|
                0 <= i < 4 ==> -2 <= (#[trigger] self.shape()[i]).0 <= 2 && -2
                    <= self.shape()[i].1 <= 2,
            exists|i: int| 0 <= i < 4 && #[trigger] self.shape()[i] == (0int, 0int),
    {
        match self {
            Tetromino::Straight => {
                assert(self.shape()[2] == (0int, 0int));
            },
            Tetromino::L(_) => {
                assert(self.shape()[1] == (0int, 0int));
            },
            _ => {
                assert(self.shape()[0] == (0int, 0int));
            },
        }
    }

    /// For each of the five kinds and each of the four rotation states:
    /// rotating the kind's shape four times by that state gives the shape
    /// back.
    pub proof fn lemma_four_rotations(self, angle: int)
        requires
            0 <= angle < 4,
        ensures
            rotate_cells(
                rotate_cells(rotate_cells(rotate_cells(self.shape(), angle), angle), angle),
                angle,
            ) == self.shape(),
    {
        lemma_rotation_order_four(self.shape(), angle);
    }

    /// The shape catalog: the four offsets of this kind around its pivot.
    pub fn get_grid(&self) -> (grid: Vec<(i16, i16)>)
        ensures
            cells_view(grid@) == self.shape(),
    {
        let grid: Vec<(i16, i16)> = match self {
            Tetromino::Straight => vec![(0, -2), (0, -1), (0, 0), (0, 1)],
            Tetromino::Square => vec![(0, 0), (0, 1), (1, 0), (1, 1)],
            Tetromino::T => vec![(0, 0), (1, 0), (0, -1), (-1, 0)],
            Tetromino::L(real_l) => {
                if *real_l {
                    vec![(0, -1), (0, 0), (0, 1), (1, 1)]
                } else {
                    vec![(0, -1), (0, 0), (0, 1), (-1, 1)]
                }
            },
            Tetromino::Z(real_z) => {
                if *real_z {
                    vec![(0, 0), (0, -1), (-1, -1), (1, 0)]
                } else {
                    vec![(0, 0), (0, -1), (1, -1), (-1, 0)]
                }
            },
        };
        grid
    }
}

/// Applies the matrix of `angle` to every offset of `offsets`.
///
/// A coordinate of `i16::MIN` has no negative, so it is left out.
pub fn rotate(offsets: Vec<(i16, i16)>, angle: u8) -> (turned: Vec<(i16, i16)>)
    requires
        angle < 4,
        forall|i: int|
            0 <= i < offsets.len() ==> (#[trigger] offsets[i]).0 > i16::MIN && offsets[i].1
                > i16::MIN,
    ensures
        cells_view(turned@) == rotate_cells(cells_view(offsets@), angle as int),
{
    let mut turned: Vec<(i16, i16)> = Vec::new();
    let mut i: usize = 0;
    while i < offsets.len()
        invariant
            angle < 4,
            i <= offsets.len(),
            turned.len() == i,
            forall|j: int|
                0 <= j < offsets.len() ==> (#[trigger] offsets[j]).0 > i16::MIN && offsets[j].1
                    > i16::MIN,
            forall|j: int|
                0 <= j < i ==> cell_view(#[trigger] turned[j]) == rotate_cell(
                    cell_view(offsets[j]),
                    angle as int,
                ),
        decreases offsets.len() - i,
    {
        let point = offsets[i];
        proof {
            lemma_rotate_cell(cell_view(point), angle as int);
        }
        let image: (i16, i16) = if angle == 0 {
            point
        } else if angle == 1 {
            (point.1, -point.0)
        } else if angle == 2 {
            (-point.0, -point.1)
        } else {
            (-point.1, point.0)
        };
        turned.push(image);
        i += 1;
    }
    turned
}

impl FallingTetromino {
    /// A rotation state is one of 0, 1, 2, 3.
    pub open spec fn wf(&self) -> bool {
        self.angle < 4
    }

    /// The board cells that the piece occupies, in the order of its shape.
    pub open spec fn cells(&self) -> Seq<(int, int)> {
        placed_cells(
            self.piece.shape(),
            self.position.0 as int,
            self.position.1 as int,
            self.angle as int,
        )
    }

    /// A piece of the given kind, pivot cell and rotation state.
    pub fn new(piece: Tetromino, position: (i16, i16), angle: u8) -> (falling: FallingTetromino)
        ensures
            falling == (FallingTetromino { piece, position, angle }),
    {
        FallingTetromino { piece, position, angle }
    }

    /// The shape of the piece's kind under its rotation state, still relative
    /// to the pivot.
    pub fn get_rotated_grid(&self) -> (grid: Vec<(i16, i16)>)
        requires
            self.wf(),
        ensures
            cells_view(grid@) == rotate_cells(self.piece.shape(), self.angle as int),
            grid.len() == 4,
    {
        let piece = self.piece.get_grid();
        assert(forall|i: int|
            0 <= i < piece.len() ==> cell_view(#[trigger] piece[i]) == cells_view(piece@)[i]);
        proof {
            self.piece.lemma_shape();
        }
        let grid = rotate(piece, self.angle);
        assert(grid@.len() == cells_view(grid@).len());
        grid
    }
}

} // verus!
