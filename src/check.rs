use vstd::prelude::*;

use crate::board::piece_at;
use crate::bounds::lemma_possible_in_bounds;
use crate::coords::{ChessMove, Coords};
use crate::piece::{Piece, PieceColor, PieceKind};
use crate::position::Position;
use crate::rules::{hits, square_of};

verus! {

/// The 64 squares, rank by rank, file by file.
pub(crate) fn all_squares() -> (r: Vec<Coords>)
    ensures
        r@ == Seq::new(64, |i: int| square_of(i)),
        forall|i: int| 0 <= i < 64 ==> (#[trigger] r@[i]).in_bounds(),
{
    let mut squares: Vec<Coords> = Vec::new();
    let mut i: isize = 0;
    while i < 8
        invariant
            0 <= i <= 8,
            squares@ == Seq::new((8 * i) as nat, |k: int| square_of(k)),
        decreases 8 - i,
    {
        let mut j: isize = 0;
        while j < 8
            invariant
                0 <= i < 8,
                0 <= j <= 8,
                squares@ == Seq::new((8 * i + j) as nat, |k: int| square_of(k)),
            decreases 8 - j,
        {
            let ghost k = 8 * i + j;
            assert(k % 8 == j && k / 8 == i) by (nonlinear_arith)
                requires
                    k == 8 * i + j,
                    0 <= j < 8,
                    0 <= i,
            ;
            squares.push(Coords { y: i, x: j });
            j = j + 1;
            assert(squares@ =~= Seq::new((8 * i + j) as nat, |k: int| square_of(k)));
        }
        i = i + 1;
    }
    assert forall|i: int| 0 <= i < 64 implies (#[trigger] squares@[i]).in_bounds() by {
        assert(0 <= i % 8 < 8 && 0 <= i / 8 < 8);
    }
    squares
}

/// Whether `chess_move` captures on, or moves to, `square`.
fn move_hits(chess_move: &ChessMove, square: &Coords) -> (r: bool)
    ensures
        r == hits(*chess_move, *square),
{
    match chess_move {
        ChessMove::RegularMove(movement) => movement.destination == *square,
        ChessMove::Promotion(movement, _) => movement.destination == *square,
        ChessMove::EnPassant(_, taken) => *taken == *square,
        _ => false,
    }
}

impl Position {
    /// The pseudo-legal moves of the side to move, square by square.
    pub fn all_possible_moves(&self) -> (r: Vec<ChessMove>)
        requires
            self.wf(),
        ensures
            r@ == self@.all_possible(),
    {
        let squares = all_squares();
        let mut moves: Vec<ChessMove> = Vec::new();
        let mut k: usize = 0;
        while k < squares.len()
            invariant
                self.wf(),
                squares@ == Seq::new(64, |i: int| square_of(i)),
                0 <= k <= 64,
                moves@ == self@.possible_upto(k as nat),
            decreases 64 - k,
        {
            let mut from_square = self.possible_moves_from_origin(&squares[k]);
            moves.append(&mut from_square);
            k = k + 1;
        }
        moves
    }

    /// Whether a pseudo-legal move of `by` captures on, or moves to, `square`.
    pub fn is_attacked_by(&self, by: &PieceColor, square: &Coords) -> (r: bool)
        requires
            self.wf(),
        ensures
            r == self@.attacked_by(*by, *square),
    {
        let moves = self.color_to_move(*by).all_possible_moves();
        let mut j: usize = 0;
        while j < moves.len()
            invariant
                moves@ == self@.with_to_move(*by).all_possible(),
                0 <= j <= moves@.len(),
                forall|k: int| 0 <= k < j ==> !hits(#[trigger] moves@[k], *square),
            decreases moves@.len() - j,
        {
            if move_hits(&moves[j], square) {
                assert(hits(moves@[j as int], *square));
                return true;
            }
            j = j + 1;
        }
        false
    }

    /// The first square, rank by rank, that holds the king of `color`.
    pub fn king_location(&self, color: &PieceColor) -> (r: Option<Coords>)
        requires
            self.wf(),
        ensures
            r == self@.king_location(*color),
    {
        let squares = all_squares();
        let king = Piece { kind: PieceKind::King, color: *color };
        let mut k: usize = 0;
        while k < squares.len()
            invariant
                self.wf(),
                squares@ == Seq::new(64, |i: int| square_of(i)),
                forall|i: int| 0 <= i < 64 ==> (#[trigger] squares@[i]).in_bounds(),
                0 <= k <= 64,
                king == (Piece { kind: PieceKind::King, color: *color }),
                self@.king_location(*color) == self@.king_from(*color, k as int),
            decreases 64 - k,
        {
            assert(squares@[k as int] == square_of(k as int));
            let found = match piece_at(&self.board, &squares[k]) {
                Some(piece) => piece == king,
                None => false,
            };
            if found {
                return Some(squares[k]);
            }
            k = k + 1;
        }
        None
    }

    /// Whether the king of `color` is attacked; a side without a king is not in check.
    pub fn is_in_check(&self, color: &PieceColor) -> (r: bool)
        requires
            self.wf(),
        ensures
            r == self@.in_check(*color),
    {
        match self.king_location(color) {
            None => false,
            Some(loc) => self.is_attacked_by(&color.opposite(), &loc),
        }
    }

    /// Whether playing `chess_move` would leave the mover's own king in check.
    pub fn opens_own_king(&self, chess_move: &ChessMove) -> (r: bool)
        requires
            self.wf(),
            chess_move.in_bounds(),
        ensures
            r == self@.opens_own_king(*chess_move),
    {
        let potential_position = self.after_move(chess_move);
        potential_position.is_in_check(&self.to_move)
    }

    /// The legal moves from `origin`, in the order they are generated; none when no piece
    /// of the side to move stands there.
    pub fn legal_moves_from_origin(&self, origin: &Coords) -> (r: Vec<ChessMove>)
        requires
            self.wf(),
        ensures
            r@ == self@.legal_from(*origin),
    {
        let possible = self.possible_moves_from_origin(origin);
        proof {
            lemma_possible_in_bounds(self@, *origin);
        }
        let ghost safe = self@.keeps_king_safe();
        let mut legal: Vec<ChessMove> = Vec::new();
        let mut i: usize = 0;
        while i < possible.len()
            invariant
                self.wf(),
                possible@ == self@.possible_from(*origin),
                forall|j: int| 0 <= j < possible@.len() ==> (#[trigger] possible@[j]).in_bounds(),
                0 <= i <= possible@.len(),
                safe == self@.keeps_king_safe(),
                legal@ == possible@.subrange(0, i as int).filter(safe),
            decreases possible@.len() - i,
        {
            proof {
                reveal(Seq::filter);
                assert(possible@.subrange(0, i + 1).drop_last() =~= possible@.subrange(0, i as int));
            }
            if !self.opens_own_king(&possible[i]) {
                legal.push(possible[i]);
            }
            i = i + 1;
        }
        assert(possible@.subrange(0, i as int) =~= possible@);
        legal
    }

    /// The legal moves of the side to move, square by square.
    pub fn all_legal_moves(&self) -> (r: Vec<ChessMove>)
        requires
            self.wf(),
        ensures
            r@ == self@.all_legal(),
    {
        let squares = all_squares();
        let mut moves: Vec<ChessMove> = Vec::new();
        let mut k: usize = 0;
        while k < squares.len()
            invariant
                self.wf(),
                squares@ == Seq::new(64, |i: int| square_of(i)),
                0 <= k <= 64,
                moves@ == self@.legal_upto(k as nat),
            decreases 64 - k,
        {
            let mut from_square = self.legal_moves_from_origin(&squares[k]);
            moves.append(&mut from_square);
            k = k + 1;
        }
        moves
    }

    /// Whether `chess_move` is among the legal moves from the square it starts on.
    pub fn is_move_legal(&self, chess_move: &ChessMove) -> (r: bool)
        requires
            self.wf(),
        ensures
            r == self@.is_legal(*chess_move),
    {
        let origin = self.nominal_origin(chess_move);
        let legal = self.legal_moves_from_origin(&origin);
        let mut i: usize = 0;
        while i < legal.len()
            invariant
                legal@ == self@.legal_from(self@.nominal_origin(*chess_move)),
                0 <= i <= legal@.len(),
                forall|k: int| 0 <= k < i ==> legal@[k] != *chess_move,
            decreases legal@.len() - i,
        {
            if legal[i] == *chess_move {
                assert(legal@[i as int] == *chess_move);
                return true;
            }
            i = i + 1;
        }
        false
    }

    /// The side to move is in check and has no legal move.
    pub fn is_checkmate(&self) -> (r: bool)
        requires
            self.wf(),
        ensures
            r == self@.is_checkmate(),
    {
        self.is_in_check(&self.to_move) && self.all_legal_moves().len() == 0
    }

    /// The side to move is not in check and has no legal move.
    pub fn is_stalemate(&self) -> (r: bool)
        requires
            self.wf(),
        ensures
            r == self@.is_stalemate(),
    {
        !self.is_in_check(&self.to_move) && self.all_legal_moves().len() == 0
    }

    /// The number of pieces of `color` on the board.
    pub fn piece_count(&self, color: PieceColor) -> (r: usize)
        requires
            self.wf(),
        ensures
            r == self@.piece_count(color),
    {
        let squares = all_squares();
        let mut count: usize = 0;
        let mut k: usize = 0;
        while k < squares.len()
            invariant
                self.wf(),
                squares@ == Seq::new(64, |i: int| square_of(i)),
                forall|i: int| 0 <= i < 64 ==> (#[trigger] squares@[i]).in_bounds(),
                0 <= k <= 64,
                count == self@.count_upto(color, k as nat),
                count <= k,
            decreases 64 - k,
        {
            if let Some(piece) = piece_at(&self.board, &squares[k]) {
                if piece.color == color {
                    count = count + 1;
                }
            }
            k = k + 1;
        }
        count
    }
}

} // verus!
