use vstd::prelude::*;

use crate::board::ray;
use crate::bounds::lemma_possible_in_bounds;
use crate::equivalence::lemma_promotion_kind_irrelevant;
use crate::coords::{eight_degrees_spec, ChessMove, Coords, Direction, Move};
use crate::piece::{Piece, PieceColor, PieceKind};
use crate::rules::{
    expand_one, expand_promotions, home_square, knight_dirs, regular, square_of, PositionView,
};

verus! {

/// The kinds a pawn may become.
pub open spec fn promoteable_kind(k: PieceKind) -> bool {
    k == PieceKind::Queen || k == PieceKind::Rook || k == PieceKind::Bishop || k
        == PieceKind::Knight
}

/// `e` is one of the moves that promotion expansion makes of `a`.
pub open spec fn expands_to(a: ChessMove, e: ChessMove, far_row: int) -> bool {
    match a {
        ChessMove::RegularMove(mv) => if mv.destination.y == far_row {
            e matches ChessMove::Promotion(mv2, k) && mv2 == mv && promoteable_kind(k)
        } else {
            e == a
        },
        _ => e == a,
    }
}

/// A plain move of a piece other than a pawn: a regular move or a castle.
pub open spec fn plain(m: ChessMove) -> bool {
    m is RegularMove || m is CastleLeft || m is CastleRight
}

/// Some move of `s` expands to `e`.
pub open spec fn has_source(s: Seq<ChessMove>, e: ChessMove, far_row: int) -> bool {
    exists|i: int| 0 <= i < s.len() && #[trigger] expands_to(s[i], e, far_row)
}

/// Every move of an expansion comes from a move of its source.
pub proof fn lemma_expand_sources(s: Seq<ChessMove>, far_row: int)
    ensures
        forall|j: int|
            0 <= j < expand_promotions(s, far_row).len() ==> has_source(
                s,
                #[trigger] expand_promotions(s, far_row)[j],
                far_row,
            ),
    decreases s.len(),
{
    if s.len() > 0 {
        let init = s.drop_last();
        lemma_expand_sources(init, far_row);
        let a = expand_promotions(init, far_row);
        let b = expand_one(s.last(), far_row);
        let e = expand_promotions(s, far_row);
        assert(e == a + b);
        assert forall|j: int| 0 <= j < e.len() implies has_source(s, #[trigger] e[j], far_row) by {
            if j < a.len() {
                assert(e[j] == a[j]);
                assert(has_source(init, a[j], far_row));
                let i = choose|i: int| 0 <= i < init.len() && #[trigger] expands_to(init[i], a[j], far_row);
                assert(init[i] == s[i]);
                assert(expands_to(s[i], e[j], far_row));
            } else {
                assert(e[j] == b[j - a.len()]);
                assert(s.last() == s[s.len() - 1]);
                assert(expands_to(s[s.len() - 1], e[j], far_row));
            }
        }
    }
}

/// Every move that a source move expands to is in the expansion.
pub proof fn lemma_expand_complete(s: Seq<ChessMove>, far_row: int)
    ensures
        forall|i: int, e: ChessMove|
            0 <= i < s.len() && #[trigger] expands_to(s[i], e, far_row) ==> expand_promotions(
                s,
                far_row,
            ).contains(e),
    decreases s.len(),
{
    if s.len() > 0 {
        let init = s.drop_last();
        lemma_expand_complete(init, far_row);
        let a = expand_promotions(init, far_row);
        let b = expand_one(s.last(), far_row);
        let whole = expand_promotions(s, far_row);
        assert(whole == a + b);
        assert forall|i: int, e: ChessMove|
            0 <= i < s.len() && #[trigger] expands_to(s[i], e, far_row) implies whole.contains(e) by {
            if i < s.len() - 1 {
                assert(init[i] == s[i]);
                assert(a.contains(e));
                let k = choose|k: int| 0 <= k < a.len() && a[k] == e;
                assert(whole[k] == e);
            } else {
                assert(s[i] == s.last());
                let k: int = match s.last() {
                    ChessMove::RegularMove(mv) => if mv.destination.y == far_row {
                        match e {
                            ChessMove::Promotion(_, PieceKind::Queen) => 0,
                            ChessMove::Promotion(_, PieceKind::Rook) => 1,
                            ChessMove::Promotion(_, PieceKind::Bishop) => 2,
                            _ => 3,
                        }
                    } else {
                        0
                    },
                    _ => 0,
                };
                assert(b[k] == e);
                assert(whole[a.len() + k] == e);
            }
        }
    }
}

pub proof fn lemma_projected_regular(
    p: PositionView,
    origin: Coords,
    dirs: Seq<Direction>,
    color: PieceColor,
    limit: Option<isize>,
)
    ensures
        forall|j: int|
            0 <= j < p.projected(origin, dirs, color, limit).len() ==> #[trigger] p.projected(
                origin,
                dirs,
                color,
                limit,
            )[j] is RegularMove,
    decreases dirs.len(),
{
    if dirs.len() > 0 {
        lemma_projected_regular(p, origin, dirs.drop_last(), color, limit);
        let a = p.projected(origin, dirs.drop_last(), color, limit);
        let b = ray(p.board, origin, dirs.last(), color, limit).map_values(
            |d: Coords| regular(origin, d),
        );
        assert forall|j: int| 0 <= j < (a + b).len() implies #[trigger] (a + b)[j] is RegularMove by {
            if j >= a.len() {
                assert((a + b)[j] == b[j - a.len()]);
            }
        }
    }
}

pub proof fn lemma_knight_regular(
    p: PositionView,
    origin: Coords,
    color: PieceColor,
    dirs: Seq<Direction>,
)
    ensures
        forall|j: int|
            0 <= j < p.knight_leaps(origin, color, dirs).len() ==> #[trigger] p.knight_leaps(
                origin,
                color,
                dirs,
            )[j] is RegularMove,
    decreases dirs.len(),
{
    if dirs.len() > 0 {
        lemma_knight_regular(p, origin, color, dirs.drop_last());
    }
}

/// Pieces other than pawns make regular moves and castles only.
pub proof fn lemma_non_pawn_plain(p: PositionView, origin: Coords, piece: Piece)
    requires
        piece.kind != PieceKind::Pawn,
    ensures
        forall|j: int|
            0 <= j < p.movement(origin, piece).len() ==> plain(
                #[trigger] p.movement(origin, piece)[j],
            ),
{
    let c = piece.color;
    match piece.kind {
        PieceKind::Rook => lemma_projected_regular(p, origin, crate::coords::cards_spec(), c, None),
        PieceKind::Bishop => lemma_projected_regular(
            p,
            origin,
            crate::coords::inter_cards_spec(),
            c,
            None,
        ),
        PieceKind::Queen => lemma_projected_regular(p, origin, eight_degrees_spec(), c, None),
        PieceKind::Knight => lemma_knight_regular(p, origin, c, knight_dirs()),
        PieceKind::King => {
            lemma_projected_regular(p, origin, eight_degrees_spec(), c, Some(1));
            let a = p.projected(origin, eight_degrees_spec(), c, Some(1));
            let r = if p.can_castle_right(c) {
                seq![ChessMove::CastleRight]
            } else {
                seq![]
            };
            let l = if p.can_castle_left(c) {
                seq![ChessMove::CastleLeft]
            } else {
                seq![]
            };
            let all = a + r + l;
            assert forall|j: int| 0 <= j < all.len() implies plain(#[trigger] all[j]) by {
                if j < a.len() {
                    assert(all[j] == a[j]);
                } else if j < a.len() + r.len() {
                    assert(all[j] == r[j - a.len()]);
                } else {
                    assert(all[j] == l[j - a.len() - r.len()]);
                }
            }
        },
        PieceKind::Pawn => {},
    }
}

/// A legal move is a pseudo-legal move that keeps the mover's king safe.
pub proof fn lemma_legal_is_possible(p: PositionView, origin: Coords, m: ChessMove)
    requires
        p.legal_from(origin).contains(m),
    ensures
        p.possible_from(origin).contains(m),
        !p.opens_own_king(m),
{
    let s = p.possible_from(origin);
    let pred = p.keeps_king_safe();
    s.lemma_filter_contains_rev(pred, m);
    let k = choose|k: int| 0 <= k < s.filter(pred).len() && s.filter(pred)[k] == m;
    s.lemma_filter_pred(pred, k);
}

/// No self-check: no legal move leaves the mover's own king in check.
pub proof fn law_legal_moves_keep_king_safe(p: PositionView, origin: Coords, m: ChessMove)
    requires
        p.legal_from(origin).contains(m),
    ensures
        !p.after_move(m).in_check(p.to_move),
{
    lemma_legal_is_possible(p, origin, m);
}

/// The displacement of a regular move or a promotion.
pub open spec fn displacement(m: ChessMove) -> Option<Move> {
    match m {
        ChessMove::RegularMove(mv) => Some(mv),
        ChessMove::Promotion(mv, _) => Some(mv),
        _ => None,
    }
}

/// What a move of a pawn of `c` on `o` satisfies before promotions are expanded.
pub open spec fn pawn_base_ok(p: PositionView, o: Coords, c: PieceColor, m: ChessMove) -> bool {
    let f = c.pawn_orientation_spec();
    match m {
        ChessMove::RegularMove(mv) => {
            &&& mv.origin == o
            &&& ((mv.destination == o.shift(0, f) && p.at(o.shift(0, f)) is None) || (
            mv.destination.x != o.x && (p.at(mv.destination) matches Some(q) && q.color
                == c.opposite_spec())))
        },
        ChessMove::PawnSkip(mv) => {
            &&& mv.origin == o
            &&& mv.destination == o.shift(0, 2 * f)
            &&& p.at(o.shift(0, f)) is None
        },
        ChessMove::EnPassant(_, _) => p.en_passant_move(o, c) == Some(m),
        _ => false,
    }
}

pub proof fn lemma_pawn_base_ok(p: PositionView, o: Coords, c: PieceColor)
    requires
        p.wf(),
        o.in_bounds(),
        o.can_shift(0, c.pawn_orientation_spec()),
    ensures
        forall|j: int|
            0 <= j < p.pawn_base(o, c).len() ==> pawn_base_ok(
                p,
                o,
                c,
                #[trigger] p.pawn_base(o, c)[j],
            ),
{
    let fw = p.pawn_forward(o, c);
    let c1 = p.pawn_capture(o, c, 1);
    let c2 = p.pawn_capture(o, c, -1);
    let ep = match p.en_passant_move(o, c) {
        Some(m) => seq![m],
        None => seq![],
    };
    let base = p.pawn_base(o, c);
    assert(base == fw + c1 + c2 + ep);
    assert forall|j: int| 0 <= j < base.len() implies pawn_base_ok(p, o, c, #[trigger] base[j]) by {
        if j < fw.len() {
            assert(base[j] == fw[j]);
        } else if j < fw.len() + c1.len() {
            assert(base[j] == c1[j - fw.len()]);
        } else if j < fw.len() + c1.len() + c2.len() {
            assert(base[j] == c2[j - fw.len() - c1.len()]);
        } else {
            assert(base[j] == ep[j - fw.len() - c1.len() - c2.len()]);
        }
    }
}

/// What every pseudo-legal move of a pawn of the side to move satisfies.
pub open spec fn pawn_move_ok(p: PositionView, o: Coords, m: ChessMove) -> bool {
    let c = p.to_move;
    let far_row = c.opposite_spec().homerow_spec();
    match m {
        ChessMove::RegularMove(mv) => mv.destination.y != far_row && pawn_base_ok(p, o, c, m),
        ChessMove::Promotion(mv, k) => {
            &&& mv.destination.y == far_row
            &&& promoteable_kind(k)
            &&& pawn_base_ok(p, o, c, ChessMove::RegularMove(mv))
        },
        _ => pawn_base_ok(p, o, c, m),
    }
}

/// The pseudo-legal moves of a pawn of the side to move are expansions of its base moves.
pub proof fn lemma_pawn_moves_ok(p: PositionView, o: Coords, m: ChessMove)
    requires
        p.wf(),
        o.in_bounds(),
        p.at(o) == Some(Piece { kind: PieceKind::Pawn, color: p.to_move }),
        p.possible_from(o).contains(m),
    ensures
        pawn_move_ok(p, o, m),
        o.can_shift(0, p.to_move.pawn_orientation_spec()),
        p.possible_from(o) == expand_promotions(
            p.pawn_base(o, p.to_move),
            p.to_move.opposite_spec().homerow_spec(),
        ),
{
    let c = p.to_move;
    let far_row = c.opposite_spec().homerow_spec();
    let base = p.pawn_base(o, c);
    let moves = p.possible_from(o);
    let j = choose|j: int| 0 <= j < moves.len() && moves[j] == m;
    lemma_pawn_base_ok(p, o, c);
    lemma_expand_sources(base, far_row);
    assert(has_source(base, moves[j], far_row));
    let i = choose|i: int| 0 <= i < base.len() && #[trigger] expands_to(base[i], m, far_row);
    assert(pawn_base_ok(p, o, c, base[i]));
}

/// Pawn blocking: a pawn's straight moves go only onto an empty square directly ahead, so a
/// pawn with any piece directly ahead has no forward move; its diagonal moves are captures
/// of an opposing piece.
pub proof fn law_pawn_blocking(p: PositionView, o: Coords, m: ChessMove)
    requires
        p.wf(),
        o.in_bounds(),
        p.at(o) == Some(Piece { kind: PieceKind::Pawn, color: p.to_move }),
        p.legal_from(o).contains(m),
    ensures
        m is PawnSkip ==> p.at(o.shift(0, p.to_move.pawn_orientation_spec())) is None,
        displacement(m) is Some && displacement(m)->Some_0.destination.x == o.x ==> {
            &&& displacement(m)->Some_0.destination == o.shift(0, p.to_move.pawn_orientation_spec())
            &&& p.at(o.shift(0, p.to_move.pawn_orientation_spec())) is None
        },
        displacement(m) is Some && displacement(m)->Some_0.destination.x != o.x ==> (p.at(
            displacement(m)->Some_0.destination,
        ) matches Some(q) && q.color == p.to_move.opposite_spec()),
{
    lemma_legal_is_possible(p, o, m);
    lemma_pawn_moves_ok(p, o, m);
}

/// Promotion completeness: a pawn's move onto the far rank is offered exactly as the four
/// promotions to queen, rook, bishop and knight, never as a regular move.
pub proof fn law_promotion_completeness(p: PositionView, o: Coords, m: ChessMove)
    requires
        p.wf(),
        o.in_bounds(),
        p.at(o) == Some(Piece { kind: PieceKind::Pawn, color: p.to_move }),
        p.possible_from(o).contains(m),
    ensures
        m matches ChessMove::RegularMove(mv) ==> mv.destination.y
            != p.to_move.opposite_spec().homerow_spec(),
        m matches ChessMove::Promotion(mv, k) ==> {
            &&& mv.destination.y == p.to_move.opposite_spec().homerow_spec()
            &&& promoteable_kind(k)
            &&& forall|k2: PieceKind|
                #[trigger] promoteable_kind(k2) ==> p.possible_from(o).contains(
                    ChessMove::Promotion(mv, k2),
                )
        },
{
    lemma_pawn_moves_ok(p, o, m);
    let c = p.to_move;
    let far_row = c.opposite_spec().homerow_spec();
    let base = p.pawn_base(o, c);
    if let ChessMove::Promotion(mv, k) = m {
        let moves = p.possible_from(o);
        let j = choose|j: int| 0 <= j < moves.len() && moves[j] == m;
        lemma_pawn_base_ok(p, o, c);
        lemma_expand_sources(base, far_row);
        assert(has_source(base, moves[j], far_row));
        let i = choose|i: int| 0 <= i < base.len() && #[trigger] expands_to(base[i], m, far_row);
        assert(base[i] == ChessMove::RegularMove(mv));
        lemma_expand_complete(base, far_row);
        assert forall|k2: PieceKind| #[trigger] promoteable_kind(k2) implies p.possible_from(
            o,
        ).contains(ChessMove::Promotion(mv, k2)) by {
            assert(expands_to(base[i], ChessMove::Promotion(mv, k2), far_row));
        }
    }
}

/// Promotion completeness among legal moves: a legal move onto the far rank is a promotion
/// to a promoteable kind, and the other three promotions of the same pawn move are legal too.
pub proof fn law_legal_promotions(p: PositionView, o: Coords, m: ChessMove)
    requires
        p.wf(),
        o.in_bounds(),
        p.at(o) == Some(Piece { kind: PieceKind::Pawn, color: p.to_move }),
        p.legal_from(o).contains(m),
    ensures
        m matches ChessMove::RegularMove(mv) ==> mv.destination.y
            != p.to_move.opposite_spec().homerow_spec(),
        m matches ChessMove::Promotion(mv, k) ==> {
            &&& mv.destination.y == p.to_move.opposite_spec().homerow_spec()
            &&& promoteable_kind(k)
            &&& forall|k2: PieceKind|
                #[trigger] promoteable_kind(k2) ==> p.legal_from(o).contains(
                    ChessMove::Promotion(mv, k2),
                )
        },
{
    lemma_legal_is_possible(p, o, m);
    lemma_pawn_moves_ok(p, o, m);
    law_promotion_completeness(p, o, m);
    if let ChessMove::Promotion(mv, k) = m {
        lemma_possible_in_bounds(p, o);
        let moves = p.possible_from(o);
        let j = choose|j: int| 0 <= j < moves.len() && moves[j] == m;
        assert(moves[j].in_bounds());
        assert forall|k2: PieceKind| #[trigger] promoteable_kind(k2) implies p.legal_from(
            o,
        ).contains(ChessMove::Promotion(mv, k2)) by {
            lemma_promotion_kind_irrelevant(p, mv, k, k2);
            lemma_possible_is_legal(p, o, ChessMove::Promotion(mv, k2));
        }
    }
}

/// En-passant target: after a two-square pawn advance the target is the square between its
/// origin and destination; after any other move there is none.
pub proof fn law_en_passant_target(p: PositionView, m: ChessMove)
    ensures
        (p.after_move(m).en_passant_on is Some) == (m is PawnSkip),
        m matches ChessMove::PawnSkip(mv) ==> p.after_move(m).en_passant_on == Some(
            Coords { x: mv.origin.x, y: ((mv.origin.y + mv.destination.y) / 2) as isize },
        ),
{
}

/// A legal two-square advance leaves as target the square the pawn passed over.
pub proof fn law_skip_target_is_jumped_square(p: PositionView, o: Coords, m: ChessMove)
    requires
        p.wf(),
        p.legal_from(o).contains(m),
        m is PawnSkip,
    ensures
        m->PawnSkip_0.origin == o,
        m->PawnSkip_0.destination == o.shift(0, 2 * p.to_move.pawn_orientation_spec()),
        p.after_move(m).en_passant_on == Some(o.shift(0, p.to_move.pawn_orientation_spec())),
{
    lemma_legal_is_possible(p, o, m);
    let moves = p.possible_from(o);
    let j = choose|j: int| 0 <= j < moves.len() && moves[j] == m;
    let piece = p.at(o)->Some_0;
    if piece.kind != PieceKind::Pawn {
        lemma_non_pawn_plain(p, o, piece);
        assert(plain(moves[j]));
    } else {
        lemma_pawn_moves_ok(p, o, m);
        let f = p.to_move.pawn_orientation_spec();
        assert((o.y + (o.y + 2 * f)) / 2 == o.y + f);
    }
}

/// En-passant capture: such a move is offered only to a pawn diagonally behind the target,
/// moves onto the target and captures the pawn just beyond it.
pub proof fn law_en_passant_capture(p: PositionView, o: Coords, m: ChessMove)
    requires
        p.wf(),
        p.legal_from(o).contains(m),
        m is EnPassant,
    ensures
        p.at(o) == Some(Piece { kind: PieceKind::Pawn, color: p.to_move }),
        p.en_passant_on == Some(m->EnPassant_0.destination),
        m->EnPassant_0.origin == o,
        ({
            let t = m->EnPassant_0.destination;
            let g = p.to_move.opposite_spec().pawn_orientation_spec();
            &&& (t.can_shift(1, g) && t.shift(1, g) == o) || (t.can_shift(-1, g) && t.shift(-1, g)
                == o)
            &&& m->EnPassant_1 == t.shift(0, g)
        }),
{
    lemma_legal_is_possible(p, o, m);
    let moves = p.possible_from(o);
    let j = choose|j: int| 0 <= j < moves.len() && moves[j] == m;
    let piece = p.at(o)->Some_0;
    if piece.kind != PieceKind::Pawn {
        lemma_non_pawn_plain(p, o, piece);
        assert(plain(moves[j]));
    } else {
        lemma_pawn_moves_ok(p, o, m);
    }
}

/// The moves of the king on its starting square, castles included.
proof fn lemma_king_square_moves(p: PositionView)
    requires
        p.wf(),
        p.at(home_square(p.to_move, 4)) == Some(Piece { kind: PieceKind::King, color: p.to_move }),
    ensures
        p.possible_from(home_square(p.to_move, 4)).contains(ChessMove::CastleRight)
            == p.can_castle_right(p.to_move),
        p.possible_from(home_square(p.to_move, 4)).contains(ChessMove::CastleLeft)
            == p.can_castle_left(p.to_move),
{
    let c = p.to_move;
    let o = home_square(c, 4);
    lemma_projected_regular(p, o, eight_degrees_spec(), c, Some(1));
    let a = p.projected(o, eight_degrees_spec(), c, Some(1));
    let r = if p.can_castle_right(c) {
        seq![ChessMove::CastleRight]
    } else {
        seq![]
    };
    let l = if p.can_castle_left(c) {
        seq![ChessMove::CastleLeft]
    } else {
        seq![]
    };
    let all = a + r + l;
    assert(p.possible_from(o) == all);
    if p.can_castle_right(c) {
        assert(all[a.len() as int] == ChessMove::CastleRight);
    }
    if p.can_castle_left(c) {
        assert(all[(a.len() + r.len()) as int] == ChessMove::CastleLeft);
    }
    assert forall|j: int| 0 <= j < all.len() implies (#[trigger] all[j] == ChessMove::CastleRight
        ==> p.can_castle_right(c)) && (all[j] == ChessMove::CastleLeft ==> p.can_castle_left(c)) by {
        if j < a.len() {
            assert(all[j] == a[j]);
        } else if j < a.len() + r.len() {
            assert(all[j] == r[j - a.len()]);
        } else {
            assert(all[j] == l[j - a.len() - r.len()]);
        }
    }
}

/// A move that the pseudo-legal moves hold and that keeps the king safe is legal.
proof fn lemma_possible_is_legal(p: PositionView, origin: Coords, m: ChessMove)
    requires
        p.possible_from(origin).contains(m),
        !p.opens_own_king(m),
    ensures
        p.legal_from(origin).contains(m),
{
    let s = p.possible_from(origin);
    let i = choose|i: int| 0 <= i < s.len() && s[i] == m;
    s.lemma_filter_contains(p.keeps_king_safe(), i);
}

/// Castling preconditions, toward the rook on file 7: with king and rook on their starting
/// squares and the king safe after castling, castling is legal exactly when neither piece
/// has moved and the squares between them are empty.
pub proof fn law_castle_right(p: PositionView)
    requires
        p.wf(),
        p.at(home_square(p.to_move, 4)) == Some(Piece { kind: PieceKind::King, color: p.to_move }),
        p.at(home_square(p.to_move, 7)) == Some(Piece { kind: PieceKind::Rook, color: p.to_move }),
        !p.opens_own_king(ChessMove::CastleRight),
    ensures
        p.legal_from(home_square(p.to_move, 4)).contains(ChessMove::CastleRight) <==> {
            &&& !p.king_moved(p.to_move)
            &&& !p.right_rook_moved(p.to_move)
            &&& p.at(home_square(p.to_move, 5)) is None
            &&& p.at(home_square(p.to_move, 6)) is None
        },
{
    lemma_king_square_moves(p);
    let o = home_square(p.to_move, 4);
    if p.legal_from(o).contains(ChessMove::CastleRight) {
        lemma_legal_is_possible(p, o, ChessMove::CastleRight);
    }
    if p.can_castle_right(p.to_move) {
        lemma_possible_is_legal(p, o, ChessMove::CastleRight);
    }
}

/// Castling preconditions, toward the rook on file 0.
pub proof fn law_castle_left(p: PositionView)
    requires
        p.wf(),
        p.at(home_square(p.to_move, 4)) == Some(Piece { kind: PieceKind::King, color: p.to_move }),
        p.at(home_square(p.to_move, 0)) == Some(Piece { kind: PieceKind::Rook, color: p.to_move }),
        !p.opens_own_king(ChessMove::CastleLeft),
    ensures
        p.legal_from(home_square(p.to_move, 4)).contains(ChessMove::CastleLeft) <==> {
            &&& !p.king_moved(p.to_move)
            &&& !p.left_rook_moved(p.to_move)
            &&& p.at(home_square(p.to_move, 3)) is None
            &&& p.at(home_square(p.to_move, 2)) is None
            &&& p.at(home_square(p.to_move, 1)) is None
        },
{
    lemma_king_square_moves(p);
    let o = home_square(p.to_move, 4);
    if p.legal_from(o).contains(ChessMove::CastleLeft) {
        lemma_legal_is_possible(p, o, ChessMove::CastleLeft);
    }
    if p.can_castle_left(p.to_move) {
        lemma_possible_is_legal(p, o, ChessMove::CastleLeft);
    }
}

proof fn lemma_legal_upto_len(p: PositionView, n: nat, i: int)
    requires
        0 <= i < n,
    ensures
        p.legal_upto(n).len() >= p.legal_from(square_of(i)).len(),
    decreases n,
{
    if i < n - 1 {
        lemma_legal_upto_len(p, (n - 1) as nat, i);
    }
}

/// A position whose side to move has no legal move, as after checkmate or stalemate, admits
/// no move at all.
pub proof fn law_no_move_after_game_end(p: PositionView, m: ChessMove)
    requires
        p.all_legal().len() == 0,
    ensures
        !p.is_legal(m),
{
    let o = p.nominal_origin(m);
    if p.is_legal(m) {
        let l = p.legal_from(o);
        assert(l.len() > 0);
        lemma_legal_is_possible(p, o, m);
        assert(o.in_bounds());
        let i = 8 * o.y + o.x;
        assert(i % 8 == o.x && i / 8 == o.y) by (nonlinear_arith)
            requires
                i == 8 * o.y + o.x,
                0 <= o.x < 8,
                0 <= o.y,
        ;
        assert(square_of(i) == o);
        lemma_legal_upto_len(p, 64, i);
    }
}

/// Castling flags only ever go from "not moved" to "moved": no move clears one.
pub proof fn law_castling_flags_monotonic(p: PositionView, m: ChessMove, c: PieceColor)
    ensures
        p.king_moved(c) ==> p.after_move(m).king_moved(c),
        p.left_rook_moved(c) ==> p.after_move(m).left_rook_moved(c),
        p.right_rook_moved(c) ==> p.after_move(m).right_rook_moved(c),
{
}

} // verus!
