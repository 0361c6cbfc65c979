use vstd::prelude::*;

use crate::board::{board_wf, cell, ray_from, set_cell};
use crate::coords::{eight_degrees_spec, ChessMove, Coords, Direction, Move};
use crate::laws::promoteable_kind;
use crate::piece::{Piece, PieceColor, PieceKind};
use crate::rules::{home_square, square_of, PositionView};

verus! {

/// The two grids differ at most in the kinds of pieces that do not belong to `col`: every
/// square is either the same in both or holds in both a piece of one same other side.
pub open spec fn same_for(b1: Seq<Seq<Option<Piece>>>, b2: Seq<Seq<Option<Piece>>>, col: PieceColor) -> bool {
    forall|x: Coords|
        #![trigger cell(b1, x)]
        #![trigger cell(b2, x)]
        x.in_bounds() ==> cell(b1, x) == cell(b2, x) || (cell(b1, x) matches Some(p1) && cell(
            b2,
            x,
        ) matches Some(p2) && p1.color == p2.color && p1.color != col)
}

/// Two positions that agree on everything that the moves of `col` can observe.
pub open spec fn alike_for(p1: PositionView, p2: PositionView, col: PieceColor) -> bool {
    &&& p1.wf()
    &&& p2.wf()
    &&& same_for(p1.board, p2.board, col)
    &&& p1.to_move == col
    &&& p2.to_move == col
    &&& p1.with_to_move(col) == PositionView { board: p1.board, ..p2.with_to_move(col) }
}

proof fn lemma_ray_alike(
    b1: Seq<Seq<Option<Piece>>>,
    b2: Seq<Seq<Option<Piece>>>,
    cur: Coords,
    d: Direction,
    color: PieceColor,
    steps: nat,
)
    requires
        same_for(b1, b2, color),
    ensures
        ray_from(b1, cur, d, color, steps) == ray_from(b2, cur, d, color, steps),
    decreases steps,
{
    if steps > 0 && cur.can_shift(d.dx as int, d.dy as int) {
        let next = cur.shift(d.dx as int, d.dy as int);
        assert(next.in_bounds());
        lemma_ray_alike(b1, b2, next, d, color, (steps - 1) as nat);
    }
}

proof fn lemma_projected_alike(
    p1: PositionView,
    p2: PositionView,
    origin: Coords,
    dirs: Seq<Direction>,
    color: PieceColor,
    limit: Option<isize>,
)
    requires
        same_for(p1.board, p2.board, color),
    ensures
        p1.projected(origin, dirs, color, limit) == p2.projected(origin, dirs, color, limit),
    decreases dirs.len(),
{
    if dirs.len() > 0 {
        lemma_projected_alike(p1, p2, origin, dirs.drop_last(), color, limit);
        lemma_ray_alike(
            p1.board,
            p2.board,
            origin,
            dirs.last(),
            color,
            crate::board::ray_steps(limit),
        );
    }
}

proof fn lemma_knight_alike(
    p1: PositionView,
    p2: PositionView,
    origin: Coords,
    color: PieceColor,
    dirs: Seq<Direction>,
)
    requires
        same_for(p1.board, p2.board, color),
    ensures
        p1.knight_leaps(origin, color, dirs) == p2.knight_leaps(origin, color, dirs),
    decreases dirs.len(),
{
    if dirs.len() > 0 {
        lemma_knight_alike(p1, p2, origin, color, dirs.drop_last());
        let d = dirs.last();
        if origin.can_shift(d.dx as int, d.dy as int) {
            assert(origin.shift(d.dx as int, d.dy as int).in_bounds());
        }
    }
}

/// Alike positions offer the same pseudo-legal moves from every square.
proof fn lemma_possible_alike(p1: PositionView, p2: PositionView, col: PieceColor, origin: Coords)
    requires
        alike_for(p1, p2, col),
    ensures
        p1.possible_from(origin) == p2.possible_from(origin),
{
    assert(p1.en_passant_on == p2.en_passant_on);
    assert(forall|c: PieceColor|
        p1.king_moved(c) == p2.king_moved(c) && p1.left_rook_moved(c) == p2.left_rook_moved(c)
            && p1.right_rook_moved(c) == p2.right_rook_moved(c));
    if origin.in_bounds() && p1.at(origin) == p2.at(origin) {
        if let Some(piece) = p1.at(origin) {
            if piece.color == col {
                let c = piece.color;
                match piece.kind {
                    PieceKind::Pawn => {
                        let f = c.pawn_orientation_spec();
                        if origin.can_shift(0, f) {
                            assert(origin.shift(0, f).in_bounds());
                            if origin.can_shift(0, 2 * f) {
                                assert(origin.shift(0, 2 * f).in_bounds());
                            }
                            if origin.can_shift(1, f) {
                                assert(origin.shift(1, f).in_bounds());
                            }
                            if origin.can_shift(-1, f) {
                                assert(origin.shift(-1, f).in_bounds());
                            }
                            assert(p1.pawn_forward(origin, c) == p2.pawn_forward(origin, c));
                            assert(p1.pawn_capture(origin, c, 1) == p2.pawn_capture(origin, c, 1));
                            assert(p1.pawn_capture(origin, c, -1) == p2.pawn_capture(origin, c, -1));
                            assert(p1.pawn_base(origin, c) == p2.pawn_base(origin, c));
                        }
                    },
                    PieceKind::Rook => lemma_projected_alike(
                        p1,
                        p2,
                        origin,
                        crate::coords::cards_spec(),
                        c,
                        None,
                    ),
                    PieceKind::Bishop => lemma_projected_alike(
                        p1,
                        p2,
                        origin,
                        crate::coords::inter_cards_spec(),
                        c,
                        None,
                    ),
                    PieceKind::Queen => lemma_projected_alike(
                        p1,
                        p2,
                        origin,
                        eight_degrees_spec(),
                        c,
                        None,
                    ),
                    PieceKind::Knight => lemma_knight_alike(p1, p2, origin, c, crate::rules::knight_dirs()),
                    PieceKind::King => {
                        lemma_projected_alike(p1, p2, origin, eight_degrees_spec(), c, Some(1));
                        assert(home_square(c, 0).in_bounds() && home_square(c, 1).in_bounds()
                            && home_square(c, 2).in_bounds() && home_square(c, 3).in_bounds()
                            && home_square(c, 4).in_bounds() && home_square(c, 5).in_bounds()
                            && home_square(c, 6).in_bounds() && home_square(c, 7).in_bounds());
                        assert(p1.can_castle_right(c) == p2.can_castle_right(c));
                        assert(p1.can_castle_left(c) == p2.can_castle_left(c));
                    },
                }
            }
        }
    }
}

proof fn lemma_possible_upto_alike(p1: PositionView, p2: PositionView, col: PieceColor, n: nat)
    requires
        alike_for(p1, p2, col),
    ensures
        p1.possible_upto(n) == p2.possible_upto(n),
    decreases n,
{
    if n > 0 {
        lemma_possible_upto_alike(p1, p2, col, (n - 1) as nat);
        lemma_possible_alike(p1, p2, col, square_of(n - 1));
    }
}

proof fn lemma_king_from_alike(p1: PositionView, p2: PositionView, color: PieceColor, i: int)
    requires
        forall|x: Coords|
            x.in_bounds() ==> (#[trigger] p1.at(x) == Some(
                Piece { kind: PieceKind::King, color },
            )) == (p2.at(x) == Some(Piece { kind: PieceKind::King, color })),
    ensures
        p1.king_from(color, i) == p2.king_from(color, i),
    decreases 64 - i,
{
    if 0 <= i < 64 {
        assert(square_of(i).in_bounds());
        lemma_king_from_alike(p1, p2, color, i + 1);
    }
}

/// Whether a promotion leaves the mover's king in check does not depend on the kind the
/// pawn becomes.
pub proof fn lemma_promotion_kind_irrelevant(
    p: PositionView,
    mv: Move,
    k1: PieceKind,
    k2: PieceKind,
)
    requires
        p.wf(),
        mv.origin.in_bounds(),
        mv.destination.in_bounds(),
        promoteable_kind(k1),
        promoteable_kind(k2),
    ensures
        p.opens_own_king(ChessMove::Promotion(mv, k1)) == p.opens_own_king(
            ChessMove::Promotion(mv, k2),
        ),
{
    let c = p.to_move;
    let opp = c.opposite_spec();
    let a1 = p.after_move(ChessMove::Promotion(mv, k1));
    let a2 = p.after_move(ChessMove::Promotion(mv, k2));
    crate::board::lemma_set_cell_wf(p.board, mv.origin, None);
    crate::board::lemma_set_cell_wf(
        set_cell(p.board, mv.origin, None),
        mv.destination,
        Some(Piece { kind: k1, color: c }),
    );
    crate::board::lemma_set_cell_wf(
        set_cell(p.board, mv.origin, None),
        mv.destination,
        Some(Piece { kind: k2, color: c }),
    );
    assert forall|x: Coords| x.in_bounds() implies (#[trigger] a1.at(x) == Some(
        Piece { kind: PieceKind::King, color: c },
    )) == (a2.at(x) == Some(Piece { kind: PieceKind::King, color: c })) by {
        if x != mv.destination {
            assert(a1.at(x) == a2.at(x));
        }
    }
    lemma_king_from_alike(a1, a2, c, 0);
    let q1 = a1.with_to_move(opp);
    let q2 = a2.with_to_move(opp);
    assert forall|x: Coords| #![trigger cell(q1.board, x)] #![trigger cell(q2.board, x)] x.in_bounds() implies cell(q1.board, x) == cell(q2.board, x) || (cell(
        q1.board,
        x,
    ) matches Some(r1) && cell(q2.board, x) matches Some(r2) && r1.color == r2.color && r1.color
        != opp) by {
        if x != mv.destination {
            assert(a1.at(x) == a2.at(x));
        }
    }
    assert(alike_for(q1, q2, opp));
    lemma_possible_upto_alike(q1, q2, opp, 64);
}

} // verus!
