use vstd::prelude::*;

use crate::board::{lemma_ray_in_bounds, ray, ray_steps};
use crate::coords::{eight_degrees_spec, ChessMove, Coords, Direction};
use crate::piece::{PieceColor, PieceKind};
use crate::laws::lemma_legal_is_possible;
use crate::rules::{
    all_in_bounds, knight_dirs, lemma_concat_in_bounds, lemma_expand_in_bounds, regular, square_of,
    PositionView,
};

verus! {

/// Moves along rays from an on-board square name on-board squares only.
pub proof fn lemma_projected_in_bounds(
    p: PositionView,
    origin: Coords,
    dirs: Seq<Direction>,
    color: PieceColor,
    limit: Option<isize>,
)
    requires
        origin.in_bounds(),
    ensures
        all_in_bounds(p.projected(origin, dirs, color, limit)),
    decreases dirs.len(),
{
    if dirs.len() > 0 {
        lemma_projected_in_bounds(p, origin, dirs.drop_last(), color, limit);
        lemma_ray_in_bounds(p.board, origin, dirs.last(), color, ray_steps(limit));
        let r = ray(p.board, origin, dirs.last(), color, limit);
        let moves = r.map_values(|d: Coords| regular(origin, d));
        assert forall|j: int| 0 <= j < moves.len() implies (#[trigger] moves[j]).in_bounds() by {
            assert(r[j].in_bounds());
        }
        lemma_concat_in_bounds(p.projected(origin, dirs.drop_last(), color, limit), moves);
    }
}

pub proof fn lemma_knight_in_bounds(
    p: PositionView,
    origin: Coords,
    color: PieceColor,
    dirs: Seq<Direction>,
)
    requires
        origin.in_bounds(),
    ensures
        all_in_bounds(p.knight_leaps(origin, color, dirs)),
    decreases dirs.len(),
{
    if dirs.len() > 0 {
        lemma_knight_in_bounds(p, origin, color, dirs.drop_last());
    }
}

/// Every pseudo-legal move names on-board squares only.
pub proof fn lemma_possible_in_bounds(p: PositionView, origin: Coords)
    requires
        p.wf(),
    ensures
        all_in_bounds(p.possible_from(origin)),
{
    if origin.in_bounds() {
        if let Some(piece) = p.at(origin) {
            if piece.color == p.to_move {
                let color = piece.color;
                match piece.kind {
                    PieceKind::Pawn => {
                        if origin.can_shift(0, color.pawn_orientation_spec()) {
                            let base = p.pawn_base(origin, color);
                            assert(all_in_bounds(base));
                            lemma_expand_in_bounds(base, color.opposite_spec().homerow_spec());
                        }
                    },
                    PieceKind::Rook => {
                        lemma_projected_in_bounds(p, origin, crate::coords::cards_spec(), color, None);
                    },
                    PieceKind::Knight => {
                        lemma_knight_in_bounds(p, origin, color, knight_dirs());
                    },
                    PieceKind::Bishop => {
                        lemma_projected_in_bounds(
                            p,
                            origin,
                            crate::coords::inter_cards_spec(),
                            color,
                            None,
                        );
                    },
                    PieceKind::Queen => {
                        lemma_projected_in_bounds(p, origin, eight_degrees_spec(), color, None);
                    },
                    PieceKind::King => {
                        lemma_projected_in_bounds(p, origin, eight_degrees_spec(), color, Some(1));
                        let steps = p.projected(origin, eight_degrees_spec(), color, Some(1));
                        let r = if p.can_castle_right(color) {
                            seq![ChessMove::CastleRight]
                        } else {
                            seq![]
                        };
                        let l = if p.can_castle_left(color) {
                            seq![ChessMove::CastleLeft]
                        } else {
                            seq![]
                        };
                        lemma_concat_in_bounds(steps, r);
                        lemma_concat_in_bounds(steps + r, l);
                    },
                }
            }
        }
    }
}

/// Every legal move names on-board squares only.
pub proof fn lemma_legal_in_bounds(p: PositionView, n: nat)
    requires
        p.wf(),
    ensures
        all_in_bounds(p.legal_upto(n)),
    decreases n,
{
    if n > 0 {
        lemma_legal_in_bounds(p, (n - 1) as nat);
        let o = square_of(n - 1);
        let l = p.legal_from(o);
        lemma_possible_in_bounds(p, o);
        assert forall|j: int| 0 <= j < l.len() implies (#[trigger] l[j]).in_bounds() by {
            assert(l.contains(l[j]));
            lemma_legal_is_possible(p, o, l[j]);
        }
        lemma_concat_in_bounds(p.legal_upto((n - 1) as nat), l);
    }
}

} // verus!
