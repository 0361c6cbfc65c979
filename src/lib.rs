//! A chess rules engine: move generation, legality, move application and
//! detection of checkmate and stalemate, all proved against a mathematical
//! model of positions.

mod board;
mod bounds;
mod check;
mod coords;
mod equivalence;
mod game;
mod laws;
mod movegen;
mod piece;
mod player;
mod position;
mod rules;

pub use crate::coords::{
    cards, cards_spec, eight_degrees, eight_degrees_spec, inter_cards, inter_cards_spec,
    on_board, ChessMove, Coords, Direction, Move,
};
pub use crate::piece::{initial_piece, Piece, PieceColor, PieceKind};
pub use crate::board::{
    board_view, board_wf, cell, lemma_ray_in_bounds, move_piece, piece_at, put_piece_at, ray,
    ray_from, ray_steps, raycast, relocate, set_cell, take_piece_at,
};
pub use crate::rules::{
    expand_one, expand_promotions, hits, hits_any, home_square, knight_dirs, regular, square_of,
    PositionView,
};
pub use crate::position::{empty_view, initial_view, Position};
pub use crate::equivalence::{alike_for, lemma_promotion_kind_irrelevant, same_for};
pub use crate::game::{ChessError, Game};
pub use crate::laws::{
    displacement, expands_to, has_source, law_castle_left, law_castle_right,
    law_castling_flags_monotonic,
    law_en_passant_capture, law_en_passant_target, law_legal_moves_keep_king_safe,
    law_legal_promotions, law_no_move_after_game_end, law_pawn_blocking,
    law_promotion_completeness, law_skip_target_is_jumped_square, lemma_expand_complete,
    lemma_expand_sources, lemma_legal_is_possible, lemma_pawn_moves_ok, pawn_base_ok,
    pawn_move_ok, plain, promoteable_kind,
};
pub use crate::player::{
    evaluation, is_capture, move_score, piece_score, piece_value_spec, score_upto,
    BasicEvaluationPlayer, FirstMovePlayer, Player, RandomCapturePrioPlayer, RandomPlayer,
};
