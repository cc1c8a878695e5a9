//! A game session: the board that persists between calls, the pieces the
//! caller reports, and the weights the search scores with.
use vstd::prelude::*;
use crate::piece::{PieceKind, spawn_column, get_spawn_position};
use crate::board::{TetrisBoard, fits, placed, empty_grid};
use crate::eval::Weights;
use crate::search::{Move, best_placement, first_best, lookahead_candidates, calculate_best_move,
    calculate_best_move_lookahead, lemma_best_placement_fits};
use crate::commands::{InputCommand, commands_for, calculate_input_commands};

verus! {

/// The columns from `lo` on, `n` of them, where the piece fits at row 0.
pub open spec fn fitting_columns(g: Seq<Seq<i32>>, k: PieceKind, rot: nat, lo: int, n: int) -> Seq<
    i32,
>
    decreases n,
{
    if n <= 0 {
        Seq::empty()
    } else if fits(g, k, rot, lo + n - 1, 0) {
        fitting_columns(g, k, rot, lo, n - 1).push((lo + n - 1) as i32)
    } else {
        fitting_columns(g, k, rot, lo, n - 1)
    }
}

/// One game's state, owned by the caller and passed to every operation.
pub struct GameSession {
    pub board: TetrisBoard,
    pub weights: Weights,
}

impl GameSession {
    pub open spec fn wf(&self) -> bool {
        self.board.wf()
    }

    /// A session on an empty board, with no pieces known and the tuned
    /// weights.
    pub fn initialize_game_board() -> (r: GameSession)
        ensures
            r.wf(),
            r.board.cells() == empty_grid(),
            r.board.current_piece.is_none(),
            r.board.held_piece.is_none(),
            r.board.next_pieces@.len() == 0,
            r.weights == Weights::reference_spec(),
    {
        GameSession { board: TetrisBoard::new(), weights: Weights::reference() }
    }

    /// A session on an empty board that scores with the given weights.
    pub fn with_weights(weights: Weights) -> (r: GameSession)
        ensures
            r.wf(),
            r.board.cells() == empty_grid(),
            r.board.current_piece.is_none(),
            r.board.held_piece.is_none(),
            r.board.next_pieces@.len() == 0,
            r.weights == weights,
    {
        GameSession { board: TetrisBoard::new(), weights }
    }

    /// A snapshot of the board.
    pub fn get_board_state(&self) -> (r: TetrisBoard)
        ensures
            r.cells() == self.board.cells(),
            r.current_piece == self.board.current_piece,
            r.held_piece == self.board.held_piece,
            r.next_pieces@ == self.board.next_pieces@,
            r.can_hold == self.board.can_hold,
    {
        self.board.copy()
    }

    /// Replaces the current, held and upcoming pieces, leaving the grid alone.
    pub fn update_game_pieces(
        &mut self,
        current: Option<PieceKind>,
        held: Option<PieceKind>,
        next: Vec<PieceKind>,
    )
        requires
            old(self).wf(),
        ensures
            final(self).wf(),
            final(self).board.cells() == old(self).board.cells(),
            final(self).board.current_piece == current,
            final(self).board.held_piece == held,
            final(self).board.next_pieces@ == next@,
            final(self).weights == old(self).weights,
    {
        self.board.update_pieces(current, held, next);
    }

    /// The best placement of `piece` on the session's board.
    pub fn calculate_best_move_persistent(&self, piece: Option<PieceKind>) -> (r: Option<Move>)
        requires
            self.wf(),
        ensures
            piece.is_none() ==> r.is_none(),
            piece matches Some(k) ==> r == best_placement(self.board.cells(), k, self.weights),
    {
        calculate_best_move(&self.board, piece, &self.weights)
    }

    /// The best placement of `piece` scored by the best answer of the first
    /// upcoming piece, where one is known.
    pub fn calculate_best_move_lookahead_persistent(&self, piece: PieceKind) -> (r: Option<Move>)
        requires
            self.wf(),
        ensures
            self.board.next_pieces@.len() == 0 ==> r == best_placement(
                self.board.cells(),
                piece,
                self.weights,
            ),
            self.board.next_pieces@.len() > 0 ==> r == first_best(
                lookahead_candidates(
                    self.board.cells(),
                    piece,
                    self.board.next_pieces@[0],
                    self.weights,
                ),
            ),
    {
        let next = if self.board.next_pieces.len() > 0 {
            Some(self.board.next_pieces[0])
        } else {
            None
        };
        calculate_best_move_lookahead(&self.board, piece, next, &self.weights)
    }

    /// Applies a placement to the session's board; false, with the board
    /// unchanged, where it no longer fits.
    pub fn execute_move_on_board(&mut self, mv: &Move) -> (r: bool)
        requires
            old(self).wf(),
        ensures
            final(self).wf(),
            r == fits(old(self).board.cells(), mv.piece, mv.rotation as nat, mv.x as int, mv.y as int),
            r ==> final(self).board.cells() == placed(
                old(self).board.cells(),
                mv.piece,
                mv.rotation as nat,
                mv.x as int,
                mv.y as int,
            ),
            !r ==> final(self).board.cells() == old(self).board.cells(),
            final(self).board.current_piece == old(self).board.current_piece,
            final(self).board.held_piece == old(self).board.held_piece,
            final(self).board.next_pieces == old(self).board.next_pieces,
            final(self).weights == old(self).weights,
    {
        self.board.place_piece(mv.piece, mv.x, mv.y, mv.rotation)
    }

    /// Empties the board and forgets the pieces; the weights stay.
    pub fn reset_game_board(&mut self)
        ensures
            final(self).wf(),
            final(self).board.cells() == empty_grid(),
            final(self).board.current_piece.is_none(),
            final(self).board.held_piece.is_none(),
            final(self).board.next_pieces@.len() == 0,
            final(self).weights == old(self).weights,
    {
        self.board = TetrisBoard::new();
    }

    /// Takes the first upcoming piece off the queue and returns it.
    pub fn advance_queue(&mut self) -> (r: Option<PieceKind>)
        requires
            old(self).wf(),
        ensures
            final(self).wf(),
            final(self).board.cells() == old(self).board.cells(),
            final(self).board.current_piece == old(self).board.current_piece,
            final(self).board.held_piece == old(self).board.held_piece,
            final(self).weights == old(self).weights,
            old(self).board.next_pieces@.len() == 0 ==> r.is_none()
                && final(self).board.next_pieces@ == old(self).board.next_pieces@,
            old(self).board.next_pieces@.len() > 0 ==> r == Some(old(self).board.next_pieces@[0])
                && final(self).board.next_pieces@ == old(self).board.next_pieces@.subrange(
                1,
                old(self).board.next_pieces@.len() as int,
            ),
    {
        if self.board.next_pieces.len() == 0 {
            None
        } else {
            let head = self.board.next_pieces.remove(0);
            Some(head)
        }
    }

    /// Whether the piece fits at its spawn position in its spawn rotation.
    pub fn test_spawn_position(&self, piece: PieceKind) -> (r: bool)
        requires
            self.wf(),
        ensures
            r == fits(self.board.cells(), piece, 0, spawn_column(piece) as int, 0),
    {
        let (x, y) = get_spawn_position(piece);
        self.board.is_valid_position(piece, x, y, 0)
    }

    /// The columns from three left of the spawn column to three right of it
    /// where the piece fits at row 0 in the given rotation.
    pub fn valid_spawn_columns(&self, piece: PieceKind, rotation: u8) -> (r: Vec<i32>)
        requires
            self.wf(),
        ensures
            r@ == fitting_columns(
                self.board.cells(),
                piece,
                rotation as nat,
                spawn_column(piece) - 3,
                7,
            ),
    {
        let ghost g = self.board.cells();
        let (spawn_x, spawn_y) = get_spawn_position(piece);
        let lo = spawn_x - 3;
        let mut out: Vec<i32> = Vec::new();
        let mut i: i32 = 0;
        while i < 7
            invariant
                self.wf(),
                g == self.board.cells(),
                lo == spawn_column(piece) - 3,
                spawn_y == 0,
                0 <= lo <= 1,
                0 <= i <= 7,
                out@ == fitting_columns(g, piece, rotation as nat, lo as int, i as int),
            decreases 7 - i,
        {
            if self.board.is_valid_position(piece, lo + i, spawn_y, rotation) {
                out.push(lo + i);
            }
            i += 1;
        }
        out
    }

    /// The best placement of `piece` on the session's board and the commands
    /// that carry it out; `None` where no piece is given or nothing fits.
    pub fn get_optimal_move_with_inputs(&self, piece: Option<PieceKind>) -> (r: Option<
        (Move, Vec<InputCommand>),
    >)
        requires
            self.wf(),
        ensures
            piece.is_none() ==> r.is_none(),
            piece matches Some(k) ==> match best_placement(self.board.cells(), k, self.weights) {
                None => r.is_none(),
                Some(m) => r matches Some(p) && p.0 == m && p.1@ == commands_for(k, m),
            },
    {
        match piece {
            None => None,
            Some(k) => {
                proof {
                    lemma_best_placement_fits(self.board.cells(), k, self.weights);
                }
                match calculate_best_move(&self.board, Some(k), &self.weights) {
                    None => None,
                    Some(m) => {
                        let commands = calculate_input_commands(k, &m);
                        Some((m, commands))
                    },
                }
            },
        }
    }
}

} // verus!
