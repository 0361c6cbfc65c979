use vstd::prelude::*;

use crate::coords::ChessMove;
use crate::piece::PieceColor;
use crate::position::Position;

verus! {

/// Why a move was refused.
#[derive(Copy, Clone, PartialEq, Eq, Debug, Hash, Structural)]
pub enum ChessError {
    /// The move names a square off the board.
    OutOfBounds,
    /// The move is not among the legal moves of the position.
    IllegalMove,
}

/// A game in progress: the current position and its outcome, recomputed after every
/// accepted move.
#[derive(Clone, Debug)]
pub struct Game {
    pub current_position: Position,
    /// The side that is checkmated, if any.
    pub checkmated: Option<PieceColor>,
    /// The side to move has no legal move and is not in check.
    pub stalemate: bool,
}

impl Game {
    /// A game from the standard starting position.
    pub fn start() -> (r: Game)
        ensures
            r.current_position@ == crate::position::initial_view(),
            r.current_position.wf(),
            r.checkmated is None,
            !r.stalemate,
    {
        Game { current_position: Position::initial(), checkmated: None, stalemate: false }
    }

    /// A game on an empty board, for setting up positions by hand.
    pub fn empty() -> (r: Game)
        ensures
            r.current_position@ == crate::position::empty_view(),
            r.current_position.wf(),
            r.checkmated is None,
            !r.stalemate,
    {
        Game { current_position: Position::empty_board(), checkmated: None, stalemate: false }
    }

    /// Plays `chess_move` if it is legal, then recomputes the outcome. A refused move
    /// leaves the game unchanged. A finished game has no legal move, so it refuses every
    /// move.
    pub fn make_move(&mut self, chess_move: &ChessMove) -> (r: Result<(), ChessError>)
        requires
            old(self).current_position.wf(),
        ensures
            final(self).current_position.wf(),
            !chess_move.in_bounds() ==> r == Err::<(), ChessError>(ChessError::OutOfBounds)
                && *final(self) == *old(self),
            chess_move.in_bounds() && !old(self).current_position@.is_legal(*chess_move) ==> r
                == Err::<(), ChessError>(ChessError::IllegalMove) && *final(self) == *old(self),
            chess_move.in_bounds() && old(self).current_position@.is_legal(*chess_move) ==> {
                let next = old(self).current_position@.after_move(*chess_move);
                &&& r == Ok::<(), ChessError>(())
                &&& final(self).current_position@ == next
                &&& final(self).checkmated == (if next.is_checkmate() {
                    Some(next.to_move)
                } else {
                    None
                })
                &&& final(self).stalemate == next.is_stalemate()
            },
    {
        if !chess_move.is_in_bounds() {
            return Err(ChessError::OutOfBounds);
        }
        if !self.current_position.is_move_legal(chess_move) {
            return Err(ChessError::IllegalMove);
        }
        let next = self.current_position.after_move(chess_move);
        self.checkmated = if next.is_checkmate() {
            Some(next.to_move)
        } else {
            None
        };
        self.stalemate = next.is_stalemate();
        self.current_position = next;
        Ok(())
    }
}

} // verus!
