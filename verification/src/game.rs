//! The game state and the falling-piece controller: moving and rotating the
//! piece in flight, landing it, clearing rows, scoring, and spawning the next
//! piece.

use crate::board::{
    cleared, empty_grid, empty_row, fits, full_count, grid_wf, in_bounds, lemma_clear_four_rows,
    lemma_cleared_has_no_full_row, lemma_lock_completes_at_most_four, row_is_full, with_cells,
    TetrisBoard,
};
use crate::piece::{cell_view, lemma_placed_cells, placed_cells, FallingTetromino, Tetromino};
use crate::random::get_random_tetromino;
use vstd::prelude::*;

verus! {

/// A command for the game, from the keyboard or from the clock.
#[derive(Clone, Copy, Debug, PartialEq, Eq, Structural)]
pub enum KeyOrder {
    /// The clock's tick: the piece falls by one row.
    Down,
    /// One row down at the player's wish, for a point.
    SoftDrop,
    /// All the way down, for two points a row.
    HardDrop,
    Left,
    Right,
    /// Leave the game.
    Exit,
    /// A quarter turn.
    Rotate,
}

/// What a move came to.
#[derive(Clone, Copy, Debug, PartialEq, Eq, Structural)]
pub enum MoveOutcome {
    /// The piece took the new place.
    Moved,
    /// The piece could not fall further: it was locked and the next one spawned.
    Locked,
    /// The piece could not go sideways or turn, and stays as it was.
    Rejected,
}

/// The game as mathematics: the grid of locked cells, the piece in flight
/// (none once the game is over), the kind that comes next, and the score.
pub struct GameView {
    pub rows: Seq<Seq<bool>>,
    pub current: Option<FallingTetromino>,
    pub next: Tetromino,
    pub score: nat,
}

/// Points for the rows that one landing completed: 40, 100, 300 and 1200
/// for one to four rows, nothing for none.
pub open spec fn line_points(rows: nat) -> nat {
    if rows == 1 {
        40
    } else if rows == 2 {
        100
    } else if rows == 3 {
        300
    } else if rows == 4 {
        1200
    } else {
        0
    }
}

/// Whether a piece of `kind` with its pivot at (column, row) and rotation
/// state `angle` has all four cells on the board and free.
pub open spec fn valid_at(
    rows: Seq<Seq<bool>>,
    kind: Tetromino,
    column: int,
    row: int,
    angle: int,
) -> bool {
    fits(rows, placed_cells(kind.shape(), column, row, angle))
}

/// A fresh piece of `kind` at the spawn cell (5, 5), not rotated; none if it
/// would not be valid there.
pub open spec fn spawned(rows: Seq<Seq<bool>>, kind: Tetromino) -> Option<FallingTetromino> {
    if valid_at(rows, kind, 5, 5, 0) {
        Some(FallingTetromino { piece: kind, position: (5i16, 5i16), angle: 0u8 })
    } else {
        None
    }
}

impl GameView {
    /// The grid is 20 by 10 and holds no complete row, and the piece in
    /// flight, if there is one, is at a valid place.
    pub open spec fn wf(self) -> bool {
        &&& grid_wf(self.rows)
        &&& forall|r: int| 0 <= r < 20 ==> !row_is_full(#[trigger] self.rows[r])
        &&& self.current matches Some(p) ==> p.wf() && fits(self.rows, p.cells())
    }

    /// The start of a game: an empty grid, the first piece at (3, 7), no
    /// points.
    pub open spec fn opening(current: Tetromino, next: Tetromino) -> GameView {
        GameView {
            rows: empty_grid(),
            current: Some(FallingTetromino { piece: current, position: (3i16, 7i16), angle: 0u8 }),
            next,
            score: 0,
        }
    }

    /// The same game with `points` more.
    pub open spec fn award(self, points: nat) -> GameView {
        GameView { rows: self.rows, current: self.current, next: self.next, score: self.score + points }
    }

    /// Where a move by `delta` and `rotation` quarter turns would take the
    /// piece `p`: pivot column, pivot row, rotation state.
    pub open spec fn target(p: FallingTetromino, delta: (int, int), rotation: int) -> (
        int,
        int,
        int,
    ) {
        (p.position.0 + delta.0, p.position.1 + delta.1, (p.angle + rotation) % 4)
    }

    /// Whether there is a piece in flight and its target is valid.
    pub open spec fn can_move(self, delta: (int, int), rotation: int) -> bool {
        self.current matches Some(p) && valid_at(
            self.rows,
            p.piece,
            Self::target(p, delta, rotation).0,
            Self::target(p, delta, rotation).1,
            Self::target(p, delta, rotation).2,
        )
    }

    /// A landing: the piece is locked where it is, complete rows go and are
    /// paid for, the kind that was next spawns, and `upcoming` is next. If
    /// the fresh piece is not valid at the spawn cell the game is over and no
    /// piece is in flight.
    pub open spec fn settle(self, upcoming: Tetromino) -> GameView
        recommends
            self.current is Some,
    {
        let locked = with_cells(self.rows, self.current.unwrap().cells());
        GameView {
            rows: cleared(locked),
            current: spawned(cleared(locked), self.next),
            next: upcoming,
            score: self.score + line_points(full_count(locked)),
        }
    }

    /// One move. A valid target is taken. An invalid one lands the piece if
    /// the move was a fall, and is dropped otherwise. With no piece in
    /// flight every move is dropped.
    pub open spec fn step(
        self,
        delta: (int, int),
        rotation: int,
        falling: bool,
        upcoming: Tetromino,
    ) -> (GameView, MoveOutcome) {
        if self.current is None {
            (self, MoveOutcome::Rejected)
        } else if self.can_move(delta, rotation) {
            let p = self.current.unwrap();
            let t = Self::target(p, delta, rotation);
            (
                GameView {
                    rows: self.rows,
                    current: Some(
                        FallingTetromino {
                            piece: p.piece,
                            position: (t.0 as i16, t.1 as i16),
                            angle: t.2 as u8,
                        },
                    ),
                    next: self.next,
                    score: self.score,
                },
                MoveOutcome::Moved,
            )
        } else if falling {
            (self.settle(upcoming), MoveOutcome::Locked)
        } else {
            (self, MoveOutcome::Rejected)
        }
    }

    /// The rows between the pivot of the piece in flight and the floor.
    pub open spec fn drop_room(self) -> int {
        match self.current {
            Some(p) => 20 - p.position.1,
            None => 0,
        }
    }

    /// A hard drop: falls of one row, two points each, up to and with the one
    /// that lands the piece.
    pub open spec fn hard_drop(self, upcoming: Tetromino) -> GameView
        decreases self.drop_room(),
        via Self::hard_drop_terminates
    {
        if self.current is None {
            self
        } else {
            let fallen = self.step((0, 1), 0, true, upcoming);
            if fallen.1 == MoveOutcome::Moved {
                fallen.0.award(2).hard_drop(upcoming)
            } else {
                fallen.0.award(2)
            }
        }
    }

    #[via_fn]
    proof fn hard_drop_terminates(self, upcoming: Tetromino) {
        if self.current is Some && self.can_move((0, 1), 0) {
            let p = self.current.unwrap();
            let t = Self::target(p, (0, 1), 0);
            lemma_placed_cells(p.piece, t.0, t.1, t.2);
        }
    }

    /// What a command does to the game. `Exit` changes nothing, the clock's
    /// tick is a fall, a soft drop is a fall that earns a point if the piece
    /// did go down, a hard drop is as above, and going left or right or
    /// turning never lands the piece.
    pub open spec fn dispatch(self, order: KeyOrder, upcoming: Tetromino) -> GameView {
        match order {
            KeyOrder::Exit => self,
            KeyOrder::Down => self.step((0, 1), 0, true, upcoming).0,
            KeyOrder::SoftDrop => {
                let fallen = self.step((0, 1), 0, true, upcoming);
                if fallen.1 == MoveOutcome::Moved {
                    fallen.0.award(1)
                } else {
                    fallen.0
                }
            },
            KeyOrder::HardDrop => self.hard_drop(upcoming),
            KeyOrder::Left => self.step((-1, 0), 0, false, upcoming).0,
            KeyOrder::Right => self.step((1, 0), 0, false, upcoming).0,
            KeyOrder::Rotate => self.step((0, 0), 1, false, upcoming).0,
        }
    }
}

/// The game: the board, the piece in flight, the kind that comes next, and
/// the score.
pub struct Game {
    board: TetrisBoard,
    next_piece: Tetromino,
    current_piece: Option<FallingTetromino>,
    score: u64,
}

impl View for Game {
    type V = GameView;

    closed spec fn view(&self) -> GameView {
        GameView {
            rows: self.board@,
            current: self.current_piece,
            next: self.next_piece,
            score: self.score as nat,
        }
    }
}

/// The points for `count` rows completed by one landing.
pub fn line_clear_points(count: u8) -> (points: u64)
    requires
        count <= 4,
    ensures
        points == line_points(count as nat),
{
    if count == 1 {
        40
    } else if count == 2 {
        100
    } else if count == 3 {
        300
    } else if count == 4 {
        1200
    } else {
        0
    }
}

impl Game {
    /// The board holds its cells and the view is well formed.
    pub closed spec fn wf(&self) -> bool {
        self.board.wf() && self@.wf()
    }

    /// What `wf` gives to the outside: a well-formed view whose score is a
    /// `u64`.
    pub proof fn lemma_wf(&self)
        requires
            self.wf(),
        ensures
            self@.wf(),
            self@.score <= u64::MAX,
    {
    }

    /// A new game with the given first piece and the given next kind.
    pub fn with_pieces(current: Tetromino, next: Tetromino) -> (game: Game)
        ensures
            game.wf(),
            game@ == GameView::opening(current, next),
    {
        let board = TetrisBoard::new();
        let piece = FallingTetromino::new(current, (3, 7), 0);
        proof {
            lemma_placed_cells(current, 3, 7, 0);
            assert forall|r: int| 0 <= r < 20 implies !row_is_full(#[trigger] board@[r]) by {
                assert(!empty_row()[0]);
            }
        }
        Game { board, next_piece: next, current_piece: Some(piece), score: 0 }
    }

    /// A new game: an empty board, a first piece of a kind drawn at random
    /// at (3, 7), and a next kind drawn at random.
    pub fn new() -> (game: Game)
        ensures
            game.wf(),
            game@.current is Some,
            game@ == GameView::opening(game@.current.unwrap().piece, game@.next),
    {
        let next = get_random_tetromino();
        let current = get_random_tetromino();
        Game::with_pieces(current, next)
    }

    /// The board, for reading.
    pub fn board(&self) -> (board: &TetrisBoard)
        ensures
            board@ == self@.rows,
            self.wf() ==> board.wf(),
    {
        &self.board
    }

    /// The piece in flight; none once the game is over.
    pub fn current_piece(&self) -> (piece: Option<FallingTetromino>)
        ensures
            piece == self@.current,
    {
        self.current_piece
    }

    /// The kind that spawns at the next landing.
    pub fn next_piece(&self) -> (kind: Tetromino)
        ensures
            kind == self@.next,
    {
        self.next_piece
    }

    /// The score.
    pub fn score(&self) -> (score: u64)
        ensures
            score == self@.score,
    {
        self.score
    }

    /// Adds `points` to the score.
    pub fn update_score(&mut self, points: u64)
        requires
            old(self).wf(),
            old(self)@.score + points <= u64::MAX,
        ensures
            final(self).wf(),
            final(self)@ == old(self)@.award(points as nat),
    {
        self.score = self.score + points;
    }

    /// Takes the target of the move if it is valid, and says whether it was.
    fn try_move(&mut self, delta: (i16, i16), rotation: u8) -> (moved: bool)
        requires
            old(self).wf(),
        ensures
            final(self).wf(),
            moved == old(self)@.can_move(cell_view(delta), rotation as int),
            final(self)@ == old(self)@.step(
                cell_view(delta),
                rotation as int,
                false,
                old(self)@.next,
            ).0,
    {
        match self.current_piece {
            None => false,
            Some(p) => {
                let column: i32 = p.position.0 as i32 + delta.0 as i32;
                let row: i32 = p.position.1 as i32 + delta.1 as i32;
                let angle: u8 = ((p.angle as u16 + rotation as u16) % 4) as u8;
                proof {
                    lemma_placed_cells(p.piece, column as int, row as int, angle as int);
                }
                if column < 0 || column > 9 || row < 0 || row > 19 {
                    false
                } else {
                    let candidate = FallingTetromino::new(
                        p.piece,
                        (column as i16, row as i16),
                        angle,
                    );
                    if self.board.position_is_valid(&candidate) {
                        self.current_piece = Some(candidate);
                        true
                    } else {
                        false
                    }
                }
            },
        }
    }

    /// Lands the piece in flight: locks it, clears the complete rows and
    /// pays for them, spawns the kind that was next, and makes `upcoming` the
    /// next kind. Returns how many rows went.
    pub fn fix_piece(&mut self, upcoming: Tetromino) -> (count: u8)
        requires
            old(self).wf(),
            old(self)@.current is Some,
            old(self)@.settle(upcoming).score <= u64::MAX,
        ensures
            final(self).wf(),
            final(self)@ == old(self)@.settle(upcoming),
            count == full_count(
                with_cells(old(self)@.rows, old(self)@.current.unwrap().cells()),
            ),
            count <= 4,
    {
        let piece = self.current_piece.unwrap();
        proof {
            lemma_placed_cells(
                piece.piece,
                piece.position.0 as int,
                piece.position.1 as int,
                piece.angle as int,
            );
            lemma_lock_completes_at_most_four(self.board@, piece.cells());
        }
        self.board.lock(&piece);
        let ghost locked = self.board@;
        proof {
            self.board.lemma_view_is_grid();
            lemma_cleared_has_no_full_row(locked);
        }
        let count = self.board.clean_lines();
        self.score = self.score + line_clear_points(count);
        let fresh = FallingTetromino::new(self.next_piece, (5, 5), 0);
        self.next_piece = upcoming;
        if self.board.position_is_valid(&fresh) {
            self.current_piece = Some(fresh);
        } else {
            self.current_piece = None;
        }
        count
    }

    /// One move of the piece in flight by `delta` columns and rows and
    /// `rotation` quarter turns. `falling` says that the move is a fall: only
    /// then does an invalid target land the piece, and `upcoming` becomes the
    /// next kind.
    pub fn apply_delta(
        &mut self,
        delta: (i16, i16),
        rotation: u8,
        falling: bool,
        upcoming: Tetromino,
    ) -> (outcome: MoveOutcome)
        requires
            old(self).wf(),
            old(self)@.step(cell_view(delta), rotation as int, falling, upcoming).0.score
                <= u64::MAX,
        ensures
            final(self).wf(),
            (final(self)@, outcome) == old(self)@.step(
                cell_view(delta),
                rotation as int,
                falling,
                upcoming,
            ),
    {
        if self.try_move(delta, rotation) {
            MoveOutcome::Moved
        } else if falling && self.current_piece.is_some() {
            self.fix_piece(upcoming);
            MoveOutcome::Locked
        } else {
            MoveOutcome::Rejected
        }
    }

    /// One move of the piece in flight, as `apply_delta` makes it; the kind
    /// that becomes next at a landing is drawn at random.
    pub fn move_piece(&mut self, delta_x: (i16, i16), rotation: u8, falling: bool) -> (outcome:
        MoveOutcome)
        requires
            old(self).wf(),
            old(self)@.step(cell_view(delta_x), rotation as int, falling, old(self)@.next).0.score
                <= u64::MAX,
        ensures
            final(self).wf(),
            (final(self)@, outcome) == old(self)@.step(
                cell_view(delta_x),
                rotation as int,
                falling,
                final(self)@.next,
            ),
    {
        if self.try_move(delta_x, rotation) {
            MoveOutcome::Moved
        } else if falling && self.current_piece.is_some() {
            let upcoming = get_random_tetromino();
            self.fix_piece(upcoming);
            MoveOutcome::Locked
        } else {
            MoveOutcome::Rejected
        }
    }

    /// Carries out one command and says whether the game goes on: it does
    /// unless the command is `Exit`. A kind that becomes next is drawn at
    /// random.
    pub fn dispatch(&mut self, order: KeyOrder) -> (running: bool)
        requires
            old(self).wf(),
            old(self)@.dispatch(order, old(self)@.next).score <= u64::MAX,
        ensures
            final(self).wf(),
            running == (order != KeyOrder::Exit),
            final(self)@ == old(self)@.dispatch(order, final(self)@.next),
    {
        match order {
            KeyOrder::Exit => {
                return false;
            },
            KeyOrder::Down => {
                self.move_piece((0, 1), 0, true);
            },
            KeyOrder::SoftDrop => {
                let outcome = self.move_piece((0, 1), 0, true);
                if outcome == MoveOutcome::Moved {
                    self.update_score(1);
                }
            },
            KeyOrder::HardDrop => {
                if self.current_piece.is_some() {
                    self.hard_drop();
                }
            },
            KeyOrder::Left => {
                self.move_piece((-1, 0), 0, false);
            },
            KeyOrder::Right => {
                self.move_piece((1, 0), 0, false);
            },
            KeyOrder::Rotate => {
                self.move_piece((0, 0), 1, false);
            },
        }
        true
    }

    /// Lets the piece fall row by row until it lands, two points a row.
    fn hard_drop(&mut self)
        requires
            old(self).wf(),
            old(self)@.current is Some,
            old(self)@.hard_drop(old(self)@.next).score <= u64::MAX,
        ensures
            final(self).wf(),
            final(self)@ == old(self)@.hard_drop(final(self)@.next),
    {
        let ghost start = self@;
        loop
            invariant_except_break
                self@.current is Some,
                self@.next == start.next,
                forall|t: Tetromino| #[trigger] self@.hard_drop(t) == start.hard_drop(t),
            invariant
                self.wf(),
                start.hard_drop(start.next).score <= u64::MAX,
            ensures
                self@ == start.hard_drop(self@.next),
            decreases self@.drop_room(),
        {
            let ghost before = self@;
            proof {
                let fallen = before.step((0, 1), 0, true, before.next);
                assert(before.hard_drop(before.next) == start.hard_drop(start.next));
                self.lemma_wf();
                before.lemma_step((0, 1), 0, true, before.next);
                if fallen.1 == MoveOutcome::Moved {
                    fallen.0.award(2).lemma_hard_drop(before.next);
                }
                let p = before.current.unwrap();
                lemma_placed_cells(
                    p.piece,
                    p.position.0 as int,
                    p.position.1 as int + 1,
                    p.angle as int,
                );
            }
            let outcome = self.move_piece((0, 1), 0, true);
            self.update_score(2);
            if outcome == MoveOutcome::Locked {
                assert(self@ == before.hard_drop(self@.next));
                break ;
            }
            assert forall|t: Tetromino| #[trigger] self@.hard_drop(t) == start.hard_drop(t) by {
                assert(before.hard_drop(t) == self@.hard_drop(t));
            }
        }
    }
}

impl GameView {
    /// A landing that completes exactly four rows counts four rows and pays
    /// exactly 1200 points.
    pub proof fn lemma_four_rows_pay_1200(
        self,
        upcoming: Tetromino,
        a: int,
        b: int,
        c: int,
        d: int,
    )
        requires
            self.current is Some,
            0 <= a < b < c < d < 20,
            forall|r: int|
                0 <= r < 20 ==> (row_is_full(
                    #[trigger] with_cells(self.rows, self.current.unwrap().cells())[r],
                ) <==> r == a || r == b || r == c || r == d),
        ensures
            full_count(with_cells(self.rows, self.current.unwrap().cells())) == 4,
            self.settle(upcoming).score == self.score + 1200,
    {
        lemma_clear_four_rows(with_cells(self.rows, self.current.unwrap().cells()), a, b, c, d);
    }

    /// A move that is not a fall never lands the piece: the grid, the score
    /// and the next kind stay, and a move that is dropped changes nothing at
    /// all.
    pub proof fn lemma_only_a_fall_lands(
        self,
        delta: (int, int),
        rotation: int,
        upcoming: Tetromino,
    )
        ensures
            self.step(delta, rotation, false, upcoming).1 != MoveOutcome::Locked,
            self.step(delta, rotation, false, upcoming).0.rows == self.rows,
            self.step(delta, rotation, false, upcoming).0.score == self.score,
            self.step(delta, rotation, false, upcoming).0.next == self.next,
            self.step(delta, rotation, false, upcoming).1 == MoveOutcome::Rejected ==> self.step(
                delta,
                rotation,
                false,
                upcoming,
            ).0 == self,
    {
    }

    /// Four `Rotate` commands in a row, with nothing between them, bring the
    /// game back to where it was, piece and rotation state and all, when all
    /// four turns were made or all four were dropped.
    pub proof fn lemma_four_rotations_restore(self, upcoming: Tetromino)
        requires
            self.wf(),
            ({
                let first = self.step((0, 0), 1, false, upcoming);
                let second = first.0.step((0, 0), 1, false, upcoming);
                let third = second.0.step((0, 0), 1, false, upcoming);
                let fourth = third.0.step((0, 0), 1, false, upcoming);
                first.1 == second.1 && second.1 == third.1 && third.1 == fourth.1
            }),
        ensures
            self.dispatch(KeyOrder::Rotate, upcoming).dispatch(KeyOrder::Rotate, upcoming).dispatch(
                KeyOrder::Rotate,
                upcoming,
            ).dispatch(KeyOrder::Rotate, upcoming) == self,
    {
        if self.step((0, 0), 1, false, upcoming).1 == MoveOutcome::Moved {
            // A turn that was made left the pivot on the board, so the
            // machine integers hold it as it is.
            let p = self.current.unwrap();
            let t = Self::target(p, (0, 0), 1);
            lemma_placed_cells(p.piece, t.0, t.1, t.2);
        }
    }

    /// A move of a well-formed game leaves it well formed, never lowers the
    /// score, and adds at most the 1200 points of four rows.
    pub proof fn lemma_step(self, delta: (int, int), rotation: int, falling: bool, upcoming: Tetromino)
        requires
            self.wf(),
        ensures
            self.step(delta, rotation, falling, upcoming).0.wf(),
            self.score <= self.step(delta, rotation, falling, upcoming).0.score <= self.score
                + 1200,
    {
        if self.current is Some {
            let p = self.current.unwrap();
            lemma_placed_cells(
                p.piece,
                p.position.0 as int,
                p.position.1 as int,
                p.angle as int,
            );
            if self.can_move(delta, rotation) {
                let t = Self::target(p, delta, rotation);
                lemma_placed_cells(p.piece, t.0, t.1, t.2);
            } else if falling {
                let locked = with_cells(self.rows, p.cells());
                lemma_lock_completes_at_most_four(self.rows, p.cells());
                lemma_cleared_has_no_full_row(locked);
            }
        }
    }

    /// A hard drop of a well-formed game leaves it well formed, never lowers
    /// the score, and adds at most two points for each row down to the floor
    /// and the 1200 points of four rows.
    pub proof fn lemma_hard_drop(self, upcoming: Tetromino)
        requires
            self.wf(),
        ensures
            self.hard_drop(upcoming).wf(),
            self.score <= self.hard_drop(upcoming).score,
            self.current is Some ==> self.hard_drop(upcoming).score <= self.score + 2
                * self.drop_room() + 1200,
            0 <= self.drop_room() <= 20,
        decreases self.drop_room(),
    {
        if self.current is Some {
            let p = self.current.unwrap();
            lemma_placed_cells(
                p.piece,
                p.position.0 as int,
                p.position.1 as int,
                p.angle as int,
            );
            let fallen = self.step((0, 1), 0, true, upcoming);
            self.lemma_step((0, 1), 0, true, upcoming);
            if fallen.1 == MoveOutcome::Moved {
                let t = Self::target(p, (0, 1), 0);
                lemma_placed_cells(p.piece, t.0, t.1, t.2);
                fallen.0.award(2).lemma_hard_drop(upcoming);
            }
        }
    }

    /// A command leaves a well-formed game well formed, never lowers the
    /// score, and adds at most 1240 points.
    pub proof fn lemma_dispatch(self, order: KeyOrder, upcoming: Tetromino)
        requires
            self.wf(),
        ensures
            self.dispatch(order, upcoming).wf(),
            self.score <= self.dispatch(order, upcoming).score <= self.score + 1240,
    {
        self.lemma_step((0, 1), 0, true, upcoming);
        self.lemma_step((-1, 0), 0, false, upcoming);
        self.lemma_step((1, 0), 0, false, upcoming);
        self.lemma_step((0, 0), 1, false, upcoming);
        self.lemma_hard_drop(upcoming);
    }
}

} // verus!
