use vstd::prelude::*;

use crate::board::{board_wf, cell, ray, relocate, set_cell};
use crate::coords::{eight_degrees_spec, ChessMove, Coords, Direction, Move};
use crate::piece::{Piece, PieceColor, PieceKind};

verus! {

/// The mathematical model of a position: the grid, the side to move, the castling flags
/// and the en-passant target.
pub struct PositionView {
    pub board: Seq<Seq<Option<Piece>>>,
    pub to_move: PieceColor,
    pub white_king_moved: bool,
    pub white_left_rook_moved: bool,
    pub white_right_rook_moved: bool,
    pub black_king_moved: bool,
    pub black_left_rook_moved: bool,
    pub black_right_rook_moved: bool,
    pub en_passant_on: Option<Coords>,
}

/// The square with index `i` when the board is read rank by rank, file by file.
pub open spec fn square_of(i: int) -> Coords {
    Coords { x: (i % 8) as isize, y: (i / 8) as isize }
}

/// The square at file `x` of the home rank of `color`.
pub open spec fn home_square(color: PieceColor, x: isize) -> Coords {
    Coords { x, y: color.homerow_spec() as isize }
}

pub open spec fn regular(origin: Coords, destination: Coords) -> ChessMove {
    ChessMove::RegularMove(Move { origin, destination })
}

/// Whether `m` captures on, or moves to, the square `sq`: the squares a side attacks.
pub open spec fn hits(m: ChessMove, sq: Coords) -> bool {
    match m {
        ChessMove::RegularMove(mv) => mv.destination == sq,
        ChessMove::Promotion(mv, _) => mv.destination == sq,
        ChessMove::EnPassant(_, taken) => taken == sq,
        _ => false,
    }
}

pub open spec fn hits_any(s: Seq<ChessMove>, sq: Coords) -> bool {
    exists|j: int| 0 <= j < s.len() && hits(#[trigger] s[j], sq)
}

/// The move followed by its promotions: a regular move onto `far_row` becomes one
/// promotion per promoteable kind.
pub open spec fn expand_one(m: ChessMove, far_row: int) -> Seq<ChessMove> {
    match m {
        ChessMove::RegularMove(mv) => if mv.destination.y == far_row {
            seq![
                ChessMove::Promotion(mv, PieceKind::Queen),
                ChessMove::Promotion(mv, PieceKind::Rook),
                ChessMove::Promotion(mv, PieceKind::Bishop),
                ChessMove::Promotion(mv, PieceKind::Knight),
            ]
        } else {
            seq![m]
        },
        _ => seq![m],
    }
}

pub open spec fn expand_promotions(s: Seq<ChessMove>, far_row: int) -> Seq<ChessMove>
    decreases s.len(),
{
    if s.len() == 0 {
        seq![]
    } else {
        expand_promotions(s.drop_last(), far_row) + expand_one(s.last(), far_row)
    }
}

pub open spec fn knight_dirs() -> Seq<Direction> {
    seq![
        Direction { dy: 2, dx: 1 },
        Direction { dy: 2, dx: -1isize },
        Direction { dy: 1, dx: 2 },
        Direction { dy: 1, dx: -2isize },
        Direction { dy: -2isize, dx: 1 },
        Direction { dy: -2isize, dx: -1isize },
        Direction { dy: -1isize, dx: -2isize },
        Direction { dy: -1isize, dx: 2 },
    ]
}

/// Every move of `s` names squares on the board only.
pub open spec fn all_in_bounds(s: Seq<ChessMove>) -> bool {
    forall|j: int| 0 <= j < s.len() ==> (#[trigger] s[j]).in_bounds()
}

pub proof fn lemma_concat_in_bounds(a: Seq<ChessMove>, b: Seq<ChessMove>)
    requires
        all_in_bounds(a),
        all_in_bounds(b),
    ensures
        all_in_bounds(a + b),
{
    assert forall|j: int| 0 <= j < (a + b).len() implies (#[trigger] (a + b)[j]).in_bounds() by {
        if j >= a.len() {
            assert((a + b)[j] == b[j - a.len()]);
        }
    }
}

pub proof fn lemma_expand_in_bounds(s: Seq<ChessMove>, far_row: int)
    requires
        all_in_bounds(s),
    ensures
        all_in_bounds(expand_promotions(s, far_row)),
    decreases s.len(),
{
    if s.len() > 0 {
        assert(all_in_bounds(s.drop_last()));
        lemma_expand_in_bounds(s.drop_last(), far_row);
        assert(s.last() == s[s.len() - 1]);
        lemma_concat_in_bounds(expand_promotions(s.drop_last(), far_row), expand_one(s.last(), far_row));
    }
}

impl PositionView {
    /// The grid is 8 by 8 and the en-passant target, if any, is on the board.
    pub open spec fn wf(self) -> bool {
        &&& board_wf(self.board)
        &&& (self.en_passant_on matches Some(c) ==> c.in_bounds())
    }

    pub open spec fn at(self, c: Coords) -> Option<Piece> {
        cell(self.board, c)
    }

    pub open spec fn king_moved(self, color: PieceColor) -> bool {
        match color {
            PieceColor::White => self.white_king_moved,
            PieceColor::Black => self.black_king_moved,
        }
    }

    pub open spec fn left_rook_moved(self, color: PieceColor) -> bool {
        match color {
            PieceColor::White => self.white_left_rook_moved,
            PieceColor::Black => self.black_left_rook_moved,
        }
    }

    pub open spec fn right_rook_moved(self, color: PieceColor) -> bool {
        match color {
            PieceColor::White => self.white_right_rook_moved,
            PieceColor::Black => self.black_right_rook_moved,
        }
    }

    pub open spec fn with_to_move(self, color: PieceColor) -> PositionView {
        PositionView { to_move: color, ..self }
    }

    /// Regular moves from `origin` to each square of the rays along `dirs`, direction by
    /// direction.
    pub open spec fn projected(
        self,
        origin: Coords,
        dirs: Seq<Direction>,
        color: PieceColor,
        limit: Option<isize>,
    ) -> Seq<ChessMove>
        decreases dirs.len(),
    {
        if dirs.len() == 0 {
            seq![]
        } else {
            self.projected(origin, dirs.drop_last(), color, limit) + ray(
                self.board,
                origin,
                dirs.last(),
                color,
                limit,
            ).map_values(|d: Coords| regular(origin, d))
        }
    }

    /// A knight's leaps along `dirs` that stay on the board and land on a square that holds
    /// no piece of its own side.
    pub open spec fn knight_leaps(self, origin: Coords, color: PieceColor, dirs: Seq<Direction>) -> Seq<
        ChessMove,
    >
        decreases dirs.len(),
    {
        if dirs.len() == 0 {
            seq![]
        } else {
            let rest = self.knight_leaps(origin, color, dirs.drop_last());
            let d = dirs.last();
            let dest = origin.shift(d.dx as int, d.dy as int);
            if origin.can_shift(d.dx as int, d.dy as int) && match self.at(dest) {
                None => true,
                Some(p) => p.color != color,
            } {
                rest.push(regular(origin, dest))
            } else {
                rest
            }
        }
    }

    /// Castling toward the rook on file 7 is offered: the squares between king and rook are
    /// empty, king and rook stand on their starting squares, and neither has moved. The
    /// squares the king crosses are not tested for attack; the legality filter only keeps
    /// the king safe where it lands.
    pub open spec fn can_castle_right(self, color: PieceColor) -> bool {
        &&& self.at(home_square(color, 5)) is None
        &&& self.at(home_square(color, 6)) is None
        &&& self.at(home_square(color, 4)) == Some(Piece { kind: PieceKind::King, color })
        &&& !self.king_moved(color)
        &&& self.at(home_square(color, 7)) == Some(Piece { kind: PieceKind::Rook, color })
        &&& !self.right_rook_moved(color)
    }

    /// Castling toward the rook on file 0 is offered.
    pub open spec fn can_castle_left(self, color: PieceColor) -> bool {
        &&& self.at(home_square(color, 3)) is None
        &&& self.at(home_square(color, 2)) is None
        &&& self.at(home_square(color, 1)) is None
        &&& self.at(home_square(color, 4)) == Some(Piece { kind: PieceKind::King, color })
        &&& !self.king_moved(color)
        &&& self.at(home_square(color, 0)) == Some(Piece { kind: PieceKind::Rook, color })
        &&& !self.left_rook_moved(color)
    }

    pub open spec fn king_moves(self, origin: Coords, color: PieceColor) -> Seq<ChessMove> {
        self.projected(origin, eight_degrees_spec(), color, Some(1)) + (if self.can_castle_right(
            color,
        ) {
            seq![ChessMove::CastleRight]
        } else {
            seq![]
        }) + (if self.can_castle_left(color) {
            seq![ChessMove::CastleLeft]
        } else {
            seq![]
        })
    }

    /// The en-passant capture open to a pawn of `color` on `origin`: the target must be
    /// diagonally ahead of it, and the captured pawn stands just behind the target.
    pub open spec fn en_passant_move(self, origin: Coords, color: PieceColor) -> Option<ChessMove> {
        match self.en_passant_on {
            None => None,
            Some(t) => {
                let g = color.opposite_spec().pawn_orientation_spec();
                if (t.can_shift(1, g) && t.shift(1, g) == origin) || (t.can_shift(-1, g) && t.shift(
                    -1,
                    g,
                ) == origin) {
                    Some(
                        ChessMove::EnPassant(
                            Move { origin, destination: t },
                            t.shift(0, g),
                        ),
                    )
                } else {
                    None
                }
            },
        }
    }

    /// The diagonal capture toward file delta `dx`, offered only onto an opposing piece.
    pub open spec fn pawn_capture(self, origin: Coords, color: PieceColor, dx: int) -> Seq<
        ChessMove,
    > {
        let f = color.pawn_orientation_spec();
        let dest = origin.shift(dx, f);
        if origin.can_shift(dx, f) && match self.at(dest) {
            Some(p) => p.color == color.opposite_spec(),
            None => false,
        } {
            seq![regular(origin, dest)]
        } else {
            seq![]
        }
    }

    /// The pawn's forward moves: one square onto an empty square, and two from its
    /// starting rank when both squares are empty.
    pub open spec fn pawn_forward(self, origin: Coords, color: PieceColor) -> Seq<ChessMove> {
        let f = color.pawn_orientation_spec();
        let ahead_one = origin.shift(0, f);
        let ahead_two = origin.shift(0, 2 * f);
        if self.at(ahead_one) is None {
            seq![regular(origin, ahead_one)] + if origin.can_shift(0, 2 * f) && (origin.y == 1
                || origin.y == 6) && self.at(ahead_two) is None {
                seq![ChessMove::PawnSkip(Move { origin, destination: ahead_two })]
            } else {
                seq![]
            }
        } else {
            seq![]
        }
    }

    /// The pawn's moves before promotions are expanded.
    pub open spec fn pawn_base(self, origin: Coords, color: PieceColor) -> Seq<ChessMove> {
        self.pawn_forward(origin, color) + self.pawn_capture(origin, color, 1)
            + self.pawn_capture(origin, color, -1) + match self.en_passant_move(origin, color) {
            Some(m) => seq![m],
            None => seq![],
        }
    }

    pub open spec fn pawn_moves(self, origin: Coords, color: PieceColor) -> Seq<ChessMove> {
        if !origin.can_shift(0, color.pawn_orientation_spec()) {
            seq![]
        } else {
            expand_promotions(
                self.pawn_base(origin, color),
                color.opposite_spec().homerow_spec(),
            )
        }
    }

    /// The moves of `piece` standing on `origin`, check aside.
    pub open spec fn movement(self, origin: Coords, piece: Piece) -> Seq<ChessMove> {
        match piece.kind {
            PieceKind::Pawn => self.pawn_moves(origin, piece.color),
            PieceKind::Rook => self.projected(origin, crate::coords::cards_spec(), piece.color, None),
            PieceKind::Knight => self.knight_leaps(origin, piece.color, knight_dirs()),
            PieceKind::Bishop => self.projected(
                origin,
                crate::coords::inter_cards_spec(),
                piece.color,
                None,
            ),
            PieceKind::Queen => self.projected(origin, eight_degrees_spec(), piece.color, None),
            PieceKind::King => self.king_moves(origin, piece.color),
        }
    }

    /// The pseudo-legal moves from `origin`: those of a piece of the side to move.
    pub open spec fn possible_from(self, origin: Coords) -> Seq<ChessMove> {
        if !origin.in_bounds() {
            seq![]
        } else {
            match self.at(origin) {
                None => seq![],
                Some(p) => if p.color == self.to_move {
                    self.movement(origin, p)
                } else {
                    seq![]
                },
            }
        }
    }

    /// The pseudo-legal moves from the first `n` squares, square by square.
    pub open spec fn possible_upto(self, n: nat) -> Seq<ChessMove>
        decreases n,
    {
        if n == 0 {
            seq![]
        } else {
            self.possible_upto((n - 1) as nat) + self.possible_from(square_of(n - 1))
        }
    }

    pub open spec fn all_possible(self) -> Seq<ChessMove> {
        self.possible_upto(64)
    }

    /// A pseudo-legal move of `by` captures on, or moves to, `square`.
    pub open spec fn attacked_by(self, by: PieceColor, square: Coords) -> bool {
        hits_any(self.with_to_move(by).all_possible(), square)
    }

    /// The first square, from index `i` on, that holds the king of `color`.
    pub open spec fn king_from(self, color: PieceColor, i: int) -> Option<Coords>
        decreases 64 - i,
    {
        if i >= 64 || i < 0 {
            None
        } else if self.at(square_of(i)) == Some(Piece { kind: PieceKind::King, color }) {
            Some(square_of(i))
        } else {
            self.king_from(color, i + 1)
        }
    }

    pub open spec fn king_location(self, color: PieceColor) -> Option<Coords> {
        self.king_from(color, 0)
    }

    /// The king of `color` stands on an attacked square; a side without a king is never in
    /// check.
    pub open spec fn in_check(self, color: PieceColor) -> bool {
        match self.king_location(color) {
            None => false,
            Some(loc) => self.attacked_by(color.opposite_spec(), loc),
        }
    }

    /// The square a move starts from; for castling, the king's starting square.
    pub open spec fn nominal_origin(self, m: ChessMove) -> Coords {
        match m {
            ChessMove::RegularMove(mv) => mv.origin,
            ChessMove::PawnSkip(mv) => mv.origin,
            ChessMove::EnPassant(mv, _) => mv.origin,
            ChessMove::Promotion(mv, _) => mv.origin,
            ChessMove::CastleLeft => home_square(self.to_move, 4),
            ChessMove::CastleRight => home_square(self.to_move, 4),
        }
    }

    /// The grid after the move's effect on the board.
    pub open spec fn board_after(self, m: ChessMove) -> Seq<Seq<Option<Piece>>> {
        let c = self.to_move;
        match m {
            ChessMove::RegularMove(mv) => relocate(self.board, mv.origin, mv.destination),
            ChessMove::PawnSkip(mv) => relocate(self.board, mv.origin, mv.destination),
            ChessMove::CastleLeft => relocate(
                relocate(self.board, home_square(c, 4), home_square(c, 2)),
                home_square(c, 0),
                home_square(c, 3),
            ),
            ChessMove::CastleRight => relocate(
                relocate(self.board, home_square(c, 4), home_square(c, 6)),
                home_square(c, 7),
                home_square(c, 5),
            ),
            ChessMove::EnPassant(mv, taken) => set_cell(
                relocate(self.board, mv.origin, mv.destination),
                taken,
                None,
            ),
            ChessMove::Promotion(mv, kind) => set_cell(
                set_cell(self.board, mv.origin, None),
                mv.destination,
                Some(Piece { kind, color: c }),
            ),
        }
    }

    /// The en-passant target after the move: the square a pawn skipped over, or none.
    pub open spec fn en_passant_after(self, m: ChessMove) -> Option<Coords> {
        match m {
            ChessMove::PawnSkip(mv) => Some(
                Coords { x: mv.origin.x, y: ((mv.origin.y + mv.destination.y) / 2) as isize },
            ),
            _ => None,
        }
    }

    /// The position after `m`: the board effect applied, the en-passant target recomputed,
    /// the side to move flipped, and the mover's castling flags set when the move starts on
    /// the king's or a rook's starting square.
    pub open spec fn after_move(self, m: ChessMove) -> PositionView {
        let c = self.to_move;
        let o = self.nominal_origin(m);
        let king = o == home_square(c, 4);
        let left = o == home_square(c, 0) || m == ChessMove::CastleLeft;
        let right = o == home_square(c, 7) || m == ChessMove::CastleRight;
        let white = c == PieceColor::White;
        PositionView {
            board: self.board_after(m),
            to_move: c.opposite_spec(),
            white_king_moved: self.white_king_moved || (white && king),
            white_left_rook_moved: self.white_left_rook_moved || (white && left),
            white_right_rook_moved: self.white_right_rook_moved || (white && right),
            black_king_moved: self.black_king_moved || (!white && king),
            black_left_rook_moved: self.black_left_rook_moved || (!white && left),
            black_right_rook_moved: self.black_right_rook_moved || (!white && right),
            en_passant_on: self.en_passant_after(m),
        }
    }

    /// Playing `m` would leave the mover's own king in check.
    pub open spec fn opens_own_king(self, m: ChessMove) -> bool {
        self.after_move(m).in_check(self.to_move)
    }

    /// The test a legal move passes: it does not leave the mover's king in check.
    pub open spec fn keeps_king_safe(self) -> spec_fn(ChessMove) -> bool {
        |m: ChessMove| !self.opens_own_king(m)
    }

    /// The legal moves from `origin`: the pseudo-legal ones that keep the mover's king safe.
    pub open spec fn legal_from(self, origin: Coords) -> Seq<ChessMove> {
        self.possible_from(origin).filter(self.keeps_king_safe())
    }

    pub open spec fn legal_upto(self, n: nat) -> Seq<ChessMove>
        decreases n,
    {
        if n == 0 {
            seq![]
        } else {
            self.legal_upto((n - 1) as nat) + self.legal_from(square_of(n - 1))
        }
    }

    pub open spec fn all_legal(self) -> Seq<ChessMove> {
        self.legal_upto(64)
    }

    pub open spec fn is_legal(self, m: ChessMove) -> bool {
        self.legal_from(self.nominal_origin(m)).contains(m)
    }

    pub open spec fn is_checkmate(self) -> bool {
        self.in_check(self.to_move) && self.all_legal().len() == 0
    }

    pub open spec fn is_stalemate(self) -> bool {
        !self.in_check(self.to_move) && self.all_legal().len() == 0
    }

    /// The number of pieces of `color` among the first `n` squares.
    pub open spec fn count_upto(self, color: PieceColor, n: nat) -> nat
        decreases n,
    {
        if n == 0 {
            0
        } else {
            self.count_upto(color, (n - 1) as nat) + match self.at(square_of(n - 1)) {
                Some(p) => if p.color == color {
                    1nat
                } else {
                    0nat
                },
                None => 0nat,
            }
        }
    }

    pub open spec fn piece_count(self, color: PieceColor) -> nat {
        self.count_upto(color, 64)
    }
}

} // verus!
