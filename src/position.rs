use vstd::prelude::*;

use crate::board::{
    board_view, board_wf, lemma_relocate_wf, lemma_set_cell_wf, move_piece, put_piece_at,
    relocate, set_cell, take_piece_at,
};
use crate::coords::{ChessMove, Coords};
use crate::piece::{initial_piece, Piece, PieceColor};
use crate::rules::PositionView;

verus! {

/// A snapshot of a game: the board, the side to move, which kings and rooks have moved,
/// and the square a pawn skipped over on the previous move.
#[derive(Clone, Debug)]
pub struct Position {
    pub board: Vec<Vec<Option<Piece>>>,
    pub to_move: PieceColor,
    pub white_king_moved: bool,
    pub white_left_rook_moved: bool,
    pub white_right_rook_moved: bool,
    pub black_king_moved: bool,
    pub black_left_rook_moved: bool,
    pub black_right_rook_moved: bool,
    pub en_passant_on: Option<Coords>,
}

impl View for Position {
    type V = PositionView;

    open spec fn view(&self) -> PositionView {
        PositionView {
            board: board_view(&self.board),
            to_move: self.to_move,
            white_king_moved: self.white_king_moved,
            white_left_rook_moved: self.white_left_rook_moved,
            white_right_rook_moved: self.white_right_rook_moved,
            black_king_moved: self.black_king_moved,
            black_left_rook_moved: self.black_left_rook_moved,
            black_right_rook_moved: self.black_right_rook_moved,
            en_passant_on: self.en_passant_on,
        }
    }
}

/// The standard starting position, White to move.
pub open spec fn initial_view() -> PositionView {
    PositionView {
        board: Seq::new(8, |y: int| Seq::new(8, |x: int| initial_piece(x, y))),
        to_move: PieceColor::White,
        white_king_moved: false,
        white_left_rook_moved: false,
        white_right_rook_moved: false,
        black_king_moved: false,
        black_left_rook_moved: false,
        black_right_rook_moved: false,
        en_passant_on: None,
    }
}

/// The empty board, White to move.
pub open spec fn empty_view() -> PositionView {
    PositionView {
        board: Seq::new(8, |y: int| Seq::new(8, |x: int| None::<Piece>)),
        ..initial_view()
    }
}

/// A copy of an 8 by 8 grid.
fn copy_board(board: &Vec<Vec<Option<Piece>>>) -> (r: Vec<Vec<Option<Piece>>>)
    requires
        board_wf(board_view(board)),
    ensures
        board_view(&r) == board_view(board),
{
    let mut r: Vec<Vec<Option<Piece>>> = Vec::new();
    let mut i: usize = 0;
    while i < 8
        invariant
            0 <= i <= 8,
            board_wf(board_view(board)),
            r@.len() == i,
            forall|k: int| 0 <= k < i ==> #[trigger] r@[k]@ == board@[k]@,
        decreases 8 - i,
    {
        assert(board_view(board)[i as int].len() == 8);
        let mut row: Vec<Option<Piece>> = Vec::new();
        let mut j: usize = 0;
        while j < 8
            invariant
                0 <= j <= 8,
                i < 8,
                board@.len() == 8,
                board@[i as int]@.len() == 8,
                row@ == board@[i as int]@.subrange(0, j as int),
            decreases 8 - j,
        {
            row.push(board[i][j]);
            j = j + 1;
            assert(row@ =~= board@[i as int]@.subrange(0, j as int));
        }
        assert(row@ =~= board@[i as int]@);
        r.push(row);
        i = i + 1;
    }
    assert(board_view(&r) =~~= board_view(board));
    r
}

impl Position {
    pub open spec fn wf(&self) -> bool {
        self@.wf()
    }

    /// The standard starting position.
    pub fn initial() -> (r: Position)
        ensures
            r@ == initial_view(),
            r.wf(),
    {
        let mut board: Vec<Vec<Option<Piece>>> = Vec::new();
        let mut i: isize = 0;
        while i < 8
            invariant
                0 <= i <= 8,
                board@.len() == i,
                forall|k: int|
                    0 <= k < i ==> #[trigger] board@[k]@ == Seq::new(
                        8,
                        |x: int| initial_piece(x, k),
                    ),
            decreases 8 - i,
        {
            let mut row: Vec<Option<Piece>> = Vec::new();
            let mut j: isize = 0;
            while j < 8
                invariant
                    0 <= j <= 8,
                    0 <= i < 8,
                    row@ == Seq::new(j as nat, |x: int| initial_piece(x, i as int)),
                decreases 8 - j,
            {
                row.push(Piece::from_initial_position(j, i));
                j = j + 1;
                assert(row@ =~= Seq::new(j as nat, |x: int| initial_piece(x, i as int)));
            }
            board.push(row);
            i = i + 1;
        }
        let r = Position {
            board,
            to_move: PieceColor::White,
            white_king_moved: false,
            white_left_rook_moved: false,
            white_right_rook_moved: false,
            black_king_moved: false,
            black_left_rook_moved: false,
            black_right_rook_moved: false,
            en_passant_on: None,
        };
        assert(r@.board =~~= initial_view().board);
        r
    }

    /// A board with no pieces on it.
    pub fn empty_board() -> (r: Position)
        ensures
            r@ == empty_view(),
            r.wf(),
    {
        let mut board: Vec<Vec<Option<Piece>>> = Vec::new();
        let mut i: usize = 0;
        while i < 8
            invariant
                0 <= i <= 8,
                board@.len() == i,
                forall|k: int|
                    0 <= k < i ==> #[trigger] board@[k]@ == Seq::new(8, |x: int| None::<Piece>),
            decreases 8 - i,
        {
            let mut row: Vec<Option<Piece>> = Vec::new();
            let mut j: usize = 0;
            while j < 8
                invariant
                    0 <= j <= 8,
                    row@ == Seq::new(j as nat, |x: int| None::<Piece>),
                decreases 8 - j,
            {
                row.push(None);
                j = j + 1;
                assert(row@ =~= Seq::new(j as nat, |x: int| None::<Piece>));
            }
            board.push(row);
            i = i + 1;
        }
        let r = Position {
            board,
            to_move: PieceColor::White,
            white_king_moved: false,
            white_left_rook_moved: false,
            white_right_rook_moved: false,
            black_king_moved: false,
            black_left_rook_moved: false,
            black_right_rook_moved: false,
            en_passant_on: None,
        };
        assert(r@.board =~~= empty_view().board);
        r
    }

    /// The same position with `color` to move.
    pub fn color_to_move(&self, color: PieceColor) -> (r: Position)
        requires
            self.wf(),
        ensures
            r@ == self@.with_to_move(color),
    {
        Position {
            board: copy_board(&self.board),
            to_move: color,
            white_king_moved: self.white_king_moved,
            white_left_rook_moved: self.white_left_rook_moved,
            white_right_rook_moved: self.white_right_rook_moved,
            black_king_moved: self.black_king_moved,
            black_left_rook_moved: self.black_left_rook_moved,
            black_right_rook_moved: self.black_right_rook_moved,
            en_passant_on: self.en_passant_on,
        }
    }

    /// The same position with the other side to move.
    pub fn opposite_color_to_move(&self) -> (r: Position)
        requires
            self.wf(),
        ensures
            r@ == self@.with_to_move(self.to_move.opposite_spec()),
    {
        self.color_to_move(self.to_move.opposite())
    }

    /// Whether the king of `color` has moved.
    pub fn king_moved(&self, color: &PieceColor) -> (r: &bool)
        ensures
            *r == self@.king_moved(*color),
    {
        match color {
            PieceColor::White => &self.white_king_moved,
            PieceColor::Black => &self.black_king_moved,
        }
    }

    /// Whether the rook that starts on file 7 of `color`'s home rank has moved.
    pub fn right_rook_moved(&self, color: &PieceColor) -> (r: &bool)
        ensures
            *r == self@.right_rook_moved(*color),
    {
        match color {
            PieceColor::White => &self.white_right_rook_moved,
            PieceColor::Black => &self.black_right_rook_moved,
        }
    }

    /// Whether the rook that starts on file 0 of `color`'s home rank has moved.
    pub fn left_rook_moved(&self, color: &PieceColor) -> (r: &bool)
        ensures
            *r == self@.left_rook_moved(*color),
    {
        match color {
            PieceColor::White => &self.white_left_rook_moved,
            PieceColor::Black => &self.black_left_rook_moved,
        }
    }

    /// The square a move starts from; for castling, the king's starting square.
    pub fn nominal_origin(&self, chess_move: &ChessMove) -> (r: Coords)
        ensures
            r == self@.nominal_origin(*chess_move),
    {
        match chess_move {
            ChessMove::RegularMove(movement) => movement.origin,
            ChessMove::PawnSkip(movement) => movement.origin,
            ChessMove::EnPassant(movement, _) => movement.origin,
            ChessMove::Promotion(movement, _) => movement.origin,
            ChessMove::CastleRight | ChessMove::CastleLeft => {
                Coords { y: self.to_move.homerow(), x: 4 }
            },
        }
    }

    /// The board after the effect of `chess_move`.
    fn board_after_move(&self, chess_move: &ChessMove) -> (r: Vec<Vec<Option<Piece>>>)
        requires
            self.wf(),
            chess_move.in_bounds(),
        ensures
            board_view(&r) == self@.board_after(*chess_move),
            board_wf(board_view(&r)),
    {
        let mut new_board = copy_board(&self.board);
        let row = self.to_move.homerow();
        let ghost b = self@.board;
        match chess_move {
            ChessMove::RegularMove(movement) => {
                move_piece(&mut new_board, movement.origin, movement.destination);
                proof {
                    lemma_relocate_wf(b, movement.origin, movement.destination);
                }
            },
            ChessMove::PawnSkip(movement) => {
                move_piece(&mut new_board, movement.origin, movement.destination);
                proof {
                    lemma_relocate_wf(b, movement.origin, movement.destination);
                }
            },
            ChessMove::CastleLeft => {
                let king_from = Coords { x: 4, y: row };
                let king_to = Coords { x: 2, y: row };
                let rook_from = Coords { x: 0, y: row };
                let rook_to = Coords { x: 3, y: row };
                move_piece(&mut new_board, king_from, king_to);
                proof {
                    lemma_relocate_wf(b, king_from, king_to);
                }
                move_piece(&mut new_board, rook_from, rook_to);
                proof {
                    lemma_relocate_wf(relocate(b, king_from, king_to), rook_from, rook_to);
                }
            },
            ChessMove::CastleRight => {
                let king_from = Coords { x: 4, y: row };
                let king_to = Coords { x: 6, y: row };
                let rook_from = Coords { x: 7, y: row };
                let rook_to = Coords { x: 5, y: row };
                move_piece(&mut new_board, king_from, king_to);
                proof {
                    lemma_relocate_wf(b, king_from, king_to);
                }
                move_piece(&mut new_board, rook_from, rook_to);
                proof {
                    lemma_relocate_wf(relocate(b, king_from, king_to), rook_from, rook_to);
                }
            },
            ChessMove::EnPassant(movement, pawn_taken) => {
                move_piece(&mut new_board, movement.origin, movement.destination);
                proof {
                    lemma_relocate_wf(b, movement.origin, movement.destination);
                }
                take_piece_at(&mut new_board, *pawn_taken);
                proof {
                    lemma_set_cell_wf(
                        relocate(b, movement.origin, movement.destination),
                        *pawn_taken,
                        None,
                    );
                }
            },
            ChessMove::Promotion(movement, promoted_to) => {
                take_piece_at(&mut new_board, movement.origin);
                proof {
                    lemma_set_cell_wf(b, movement.origin, None);
                }
                let promoted = Piece { kind: *promoted_to, color: self.to_move };
                put_piece_at(&mut new_board, promoted, movement.destination);
                proof {
                    lemma_set_cell_wf(
                        set_cell(b, movement.origin, None),
                        movement.destination,
                        Some(promoted),
                    );
                }
            },
        }
        new_board
    }

    /// The position after `chess_move`, which is applied as given, legal or not; the
    /// receiver is left untouched.
    pub fn after_move(&self, chess_move: &ChessMove) -> (r: Position)
        requires
            self.wf(),
            chess_move.in_bounds(),
        ensures
            r@ == self@.after_move(*chess_move),
            r.wf(),
    {
        let new_board = self.board_after_move(chess_move);
        let row = self.to_move.homerow();
        let en_passant_on = match chess_move {
            ChessMove::PawnSkip(movement) => Some(
                Coords { x: movement.origin.x, y: (movement.origin.y + movement.destination.y) / 2 },
            ),
            _ => None,
        };
        let origin = self.nominal_origin(chess_move);
        let king = origin.x == 4 && origin.y == row;
        let left = (origin.x == 0 && origin.y == row) || matches!(chess_move, ChessMove::CastleLeft);
        let right = (origin.x == 7 && origin.y == row) || matches!(
            chess_move,
            ChessMove::CastleRight
        );
        let white = match self.to_move {
            PieceColor::White => true,
            PieceColor::Black => false,
        };
        Position {
            board: new_board,
            to_move: self.to_move.opposite(),
            white_king_moved: self.white_king_moved || (white && king),
            white_left_rook_moved: self.white_left_rook_moved || (white && left),
            white_right_rook_moved: self.white_right_rook_moved || (white && right),
            black_king_moved: self.black_king_moved || (!white && king),
            black_left_rook_moved: self.black_left_rook_moved || (!white && left),
            black_right_rook_moved: self.black_right_rook_moved || (!white && right),
            en_passant_on,
        }
    }
}

} // verus!
