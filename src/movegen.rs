use vstd::prelude::*;

use crate::board::{piece_at, ray, raycast};
use crate::coords::{cards, eight_degrees, inter_cards, ChessMove, Coords, Direction, Move};
use crate::piece::{Piece, PieceColor, PieceKind};
use crate::position::Position;
use crate::rules::{expand_one, expand_promotions, knight_dirs, regular};

verus! {

impl Position {
    /// The squares a piece of `origin_color` on `origin` reaches along `direction`.
    pub fn raycast(
        &self,
        origin: &Coords,
        direction: &Direction,
        origin_color: &PieceColor,
        limit: Option<isize>,
    ) -> (r: Vec<Coords>)
        requires
            self.wf(),
        ensures
            r@ == ray(self@.board, *origin, *direction, *origin_color, limit),
    {
        raycast(&self.board, origin, direction, origin_color, limit)
    }

    /// Regular moves from `origin` to every square of the rays along `directions`.
    pub fn projected_movement(
        &self,
        origin: &Coords,
        directions: Vec<Direction>,
        origin_color: &PieceColor,
        limit: Option<isize>,
    ) -> (r: Vec<ChessMove>)
        requires
            self.wf(),
        ensures
            r@ == self@.projected(*origin, directions@, *origin_color, limit),
    {
        let mut moves: Vec<ChessMove> = Vec::new();
        let mut i: usize = 0;
        while i < directions.len()
            invariant
                self.wf(),
                0 <= i <= directions@.len(),
                moves@ == self@.projected(
                    *origin,
                    directions@.subrange(0, i as int),
                    *origin_color,
                    limit,
                ),
            decreases directions@.len() - i,
        {
            let squares = self.raycast(origin, &directions[i], origin_color, limit);
            let ghost before = moves@;
            let mut j: usize = 0;
            while j < squares.len()
                invariant
                    0 <= j <= squares@.len(),
                    moves@ == before + squares@.subrange(0, j as int).map_values(
                        |d: Coords| regular(*origin, d),
                    ),
                decreases squares@.len() - j,
            {
                moves.push(ChessMove::RegularMove(Move { origin: *origin, destination: squares[j] }));
                j = j + 1;
                assert(moves@ =~= before + squares@.subrange(0, j as int).map_values(
                    |d: Coords| regular(*origin, d),
                ));
            }
            assert(squares@.subrange(0, j as int) =~= squares@);
            assert(directions@.subrange(0, i + 1).drop_last() =~= directions@.subrange(0, i as int));
            i = i + 1;
        }
        assert(directions@.subrange(0, i as int) =~= directions@);
        moves
    }

    pub fn queen_movement(&self, origin: &Coords, color: &PieceColor) -> (r: Vec<ChessMove>)
        requires
            self.wf(),
        ensures
            r@ == self@.movement(*origin, Piece { kind: PieceKind::Queen, color: *color }),
    {
        self.projected_movement(origin, eight_degrees(), color, None)
    }

    pub fn bishop_from(&self, origin: &Coords, color: &PieceColor) -> (r: Vec<ChessMove>)
        requires
            self.wf(),
        ensures
            r@ == self@.movement(*origin, Piece { kind: PieceKind::Bishop, color: *color }),
    {
        self.projected_movement(origin, inter_cards(), color, None)
    }

    pub fn rook_from(&self, origin: &Coords, color: &PieceColor) -> (r: Vec<ChessMove>)
        requires
            self.wf(),
        ensures
            r@ == self@.movement(*origin, Piece { kind: PieceKind::Rook, color: *color }),
    {
        self.projected_movement(origin, cards(), color, None)
    }

    pub fn knight_from(&self, origin: &Coords, color: &PieceColor) -> (r: Vec<ChessMove>)
        requires
            self.wf(),
        ensures
            r@ == self@.movement(*origin, Piece { kind: PieceKind::Knight, color: *color }),
    {
        let directions: Vec<Direction> = vec![
            Direction { dy: 2, dx: 1 },
            Direction { dy: 2, dx: -1 },
            Direction { dy: 1, dx: 2 },
            Direction { dy: 1, dx: -2 },
            Direction { dy: -2, dx: 1 },
            Direction { dy: -2, dx: -1 },
            Direction { dy: -1, dx: -2 },
            Direction { dy: -1, dx: 2 },
        ];
        assert(directions@ =~= knight_dirs());
        let mut moves: Vec<ChessMove> = Vec::new();
        let mut i: usize = 0;
        while i < directions.len()
            invariant
                self.wf(),
                directions@ == knight_dirs(),
                0 <= i <= directions@.len(),
                moves@ == self@.knight_leaps(*origin, *color, directions@.subrange(0, i as int)),
            decreases directions@.len() - i,
        {
            assert(directions@.subrange(0, i + 1).drop_last() =~= directions@.subrange(0, i as int));
            if let Some(destination) = origin.step(directions[i]) {
                let free = match piece_at(&self.board, &destination) {
                    None => true,
                    Some(piece) => piece.color != *color,
                };
                if free {
                    moves.push(ChessMove::RegularMove(Move { origin: *origin, destination }));
                }
            }
            i = i + 1;
        }
        assert(directions@.subrange(0, i as int) =~= directions@);
        moves
    }

    /// Whether `square` holds exactly `piece`.
    fn holds(&self, square: Coords, piece: Piece) -> (r: bool)
        requires
            self.wf(),
            square.in_bounds(),
        ensures
            r == (self@.at(square) == Some(piece)),
    {
        match piece_at(&self.board, &square) {
            Some(p) => p == piece,
            None => false,
        }
    }

    /// Whether `square` is empty.
    fn is_empty_at(&self, square: Coords) -> (r: bool)
        requires
            self.wf(),
            square.in_bounds(),
        ensures
            r == (self@.at(square) is None),
    {
        piece_at(&self.board, &square).is_none()
    }

    pub fn king_movement(&self, origin: &Coords, origin_color: &PieceColor) -> (r: Vec<ChessMove>)
        requires
            self.wf(),
        ensures
            r@ == self@.movement(*origin, Piece { kind: PieceKind::King, color: *origin_color }),
    {
        let mut moves = self.projected_movement(origin, eight_degrees(), origin_color, Some(1));
        let ghost steps = moves@;
        let row = origin_color.homerow();
        let color = *origin_color;
        let king = Piece { kind: PieceKind::King, color };
        let rook = Piece { kind: PieceKind::Rook, color };
        let right = self.is_empty_at(Coords { y: row, x: 5 }) && self.is_empty_at(
            Coords { y: row, x: 6 },
        ) && self.holds(Coords { y: row, x: 4 }, king) && !*self.king_moved(origin_color)
            && self.holds(Coords { y: row, x: 7 }, rook) && !*self.right_rook_moved(origin_color);
        assert(right == self@.can_castle_right(color));
        if right {
            moves.push(ChessMove::CastleRight);
        }
        let ghost with_right = moves@;
        let left = self.is_empty_at(Coords { y: row, x: 3 }) && self.is_empty_at(
            Coords { y: row, x: 2 },
        ) && self.is_empty_at(Coords { y: row, x: 1 }) && self.holds(Coords { y: row, x: 4 }, king)
            && !*self.king_moved(origin_color) && self.holds(Coords { y: row, x: 0 }, rook)
            && !*self.left_rook_moved(origin_color);
        assert(left == self@.can_castle_left(color));
        if left {
            moves.push(ChessMove::CastleLeft);
        }
        assert(moves@ =~= self@.king_moves(*origin, color));
        moves
    }

    /// The en-passant capture open to a pawn of `color` on `origin`, if any.
    pub fn en_passant_from(&self, origin: &Coords, color: &PieceColor) -> (r: Option<ChessMove>)
        requires
            self.wf(),
            origin.in_bounds(),
        ensures
            r == self@.en_passant_move(*origin, *color),
    {
        match self.en_passant_on {
            None => None,
            Some(coordinates) => {
                let g = color.opposite().pawn_orientation();
                let right = coordinates.step(Direction { dx: 1, dy: g });
                let left = coordinates.step(Direction { dx: -1, dy: g });
                let from_right = match right {
                    Some(c) => c == *origin,
                    None => false,
                };
                let from_left = match left {
                    Some(c) => c == *origin,
                    None => false,
                };
                if from_right || from_left {
                    match coordinates.step(Direction { dx: 0, dy: g }) {
                        Some(taken) => Some(
                            ChessMove::EnPassant(
                                Move { origin: *origin, destination: coordinates },
                                taken,
                            ),
                        ),
                        None => None,
                    }
                } else {
                    None
                }
            },
        }
    }

    /// Appends the pawn's diagonal capture toward file delta `dx` when an opposing piece
    /// stands there.
    fn push_pawn_capture(
        &self,
        moves: &mut Vec<ChessMove>,
        origin: &Coords,
        color: &PieceColor,
        dx: isize,
    )
        requires
            self.wf(),
            dx == 1 || dx == -1,
        ensures
            final(moves)@ == old(moves)@ + self@.pawn_capture(*origin, *color, dx as int),
    {
        let f = color.pawn_orientation();
        if let Some(diagonal) = origin.step(Direction { dx, dy: f }) {
            if let Some(piece) = piece_at(&self.board, &diagonal) {
                if piece.color == color.opposite() {
                    moves.push(ChessMove::RegularMove(Move { origin: *origin, destination: diagonal }));
                    return;
                }
            }
        }
        assert(moves@ =~= old(moves)@ + seq![]);
    }

    /// The pawn's straight moves: one square, and two from its starting rank.
    fn pawn_forward_moves(&self, origin: &Coords, color: &PieceColor, ahead_one: Coords) -> (r:
        Vec<ChessMove>)
        requires
            self.wf(),
            origin.can_shift(0, color.pawn_orientation_spec()),
            ahead_one == origin.shift(0, color.pawn_orientation_spec()),
        ensures
            r@ == self@.pawn_forward(*origin, *color),
    {
        let forward = Direction { dx: 0, dy: color.pawn_orientation() };
        let mut moves: Vec<ChessMove> = Vec::new();
        if piece_at(&self.board, &ahead_one).is_none() {
            moves.push(ChessMove::RegularMove(Move { origin: *origin, destination: ahead_one }));
            if let Some(ahead_two) = ahead_one.step(forward) {
                if (origin.y == 1 || origin.y == 6) && piece_at(&self.board, &ahead_two).is_none() {
                    moves.push(ChessMove::PawnSkip(Move { origin: *origin, destination: ahead_two }));
                }
            }
        }
        assert(moves@ =~= self@.pawn_forward(*origin, *color));
        moves
    }

    /// The moves of a pawn of `color` on `origin`; a regular move onto the far rank is
    /// offered once per promoteable kind instead.
    pub fn pawn_from(&self, origin: &Coords, color: &PieceColor) -> (r: Vec<ChessMove>)
        requires
            self.wf(),
            origin.in_bounds(),
        ensures
            r@ == self@.pawn_moves(*origin, *color),
    {
        let forward = Direction { dx: 0, dy: color.pawn_orientation() };
        let ahead_one = match origin.step(forward) {
            None => {
                return Vec::new();
            },
            Some(c) => c,
        };
        let mut legal_moves = self.pawn_forward_moves(origin, color, ahead_one);
        self.push_pawn_capture(&mut legal_moves, origin, color, 1);
        self.push_pawn_capture(&mut legal_moves, origin, color, -1);
        if let Some(en_passant) = self.en_passant_from(origin, color) {
            legal_moves.push(en_passant);
        }
        assert(legal_moves@ =~= self@.pawn_base(*origin, *color));
        expand_promotion_moves(&legal_moves, color.opposite().homerow())
    }

    /// The moves of `piece` standing on `origin`, check aside.
    pub fn movement_from_origin(&self, origin: &Coords, piece: Piece) -> (r: Vec<ChessMove>)
        requires
            self.wf(),
            origin.in_bounds(),
        ensures
            r@ == self@.movement(*origin, piece),
    {
        match piece.kind {
            PieceKind::Pawn => self.pawn_from(origin, &piece.color),
            PieceKind::Rook => self.rook_from(origin, &piece.color),
            PieceKind::Knight => self.knight_from(origin, &piece.color),
            PieceKind::Bishop => self.bishop_from(origin, &piece.color),
            PieceKind::Queen => self.queen_movement(origin, &piece.color),
            PieceKind::King => self.king_movement(origin, &piece.color),
        }
    }

    /// The pseudo-legal moves from `origin`: none unless a piece of the side to move stands
    /// there.
    pub fn possible_moves_from_origin(&self, origin: &Coords) -> (r: Vec<ChessMove>)
        requires
            self.wf(),
        ensures
            r@ == self@.possible_from(*origin),
    {
        if !origin.is_in_bounds() {
            return Vec::new();
        }
        match piece_at(&self.board, origin) {
            None => Vec::new(),
            Some(piece) => {
                if piece.color == self.to_move {
                    self.movement_from_origin(origin, piece)
                } else {
                    Vec::new()
                }
            },
        }
    }
}

/// Each regular move onto `far_row` replaced by its promotions, in order.
fn expand_promotion_moves(moves: &Vec<ChessMove>, far_row: isize) -> (r: Vec<ChessMove>)
    ensures
        r@ == expand_promotions(moves@, far_row as int),
{
    let mut expanded: Vec<ChessMove> = Vec::new();
    let mut i: usize = 0;
    while i < moves.len()
        invariant
            0 <= i <= moves@.len(),
            expanded@ == expand_promotions(moves@.subrange(0, i as int), far_row as int),
        decreases moves@.len() - i,
    {
        let pawn_move = moves[i];
        let ghost before = expanded@;
        match pawn_move {
            ChessMove::RegularMove(movement) => {
                if movement.destination.y == far_row {
                    expanded.push(ChessMove::Promotion(movement, PieceKind::Queen));
                    expanded.push(ChessMove::Promotion(movement, PieceKind::Rook));
                    expanded.push(ChessMove::Promotion(movement, PieceKind::Bishop));
                    expanded.push(ChessMove::Promotion(movement, PieceKind::Knight));
                } else {
                    expanded.push(pawn_move);
                }
            },
            _ => {
                expanded.push(pawn_move);
            },
        }
        assert(expanded@ =~= before + expand_one(pawn_move, far_row as int));
        assert(moves@.subrange(0, i + 1).drop_last() =~= moves@.subrange(0, i as int));
        i = i + 1;
    }
    assert(moves@.subrange(0, i as int) =~= moves@);
    expanded
}

} // verus!
