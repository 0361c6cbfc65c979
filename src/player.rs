use vstd::prelude::*;

use rand::seq::IndexedRandom;

use crate::board::piece_at;
use crate::bounds::lemma_legal_in_bounds;
use crate::check::all_squares;
use crate::coords::ChessMove;
use crate::piece::{Piece, PieceColor, PieceKind};
use crate::position::Position;
use crate::rules::{square_of, PositionView};

verus! {

/// A strategy that picks a move for the side to move.
pub trait Player {
    /// One of the legal moves of `position`, which must have some.
    fn offer_move(&self, position: &Position) -> (r: ChessMove)
        requires
            position.wf(),
            position@.all_legal().len() > 0,
        ensures
            position@.all_legal().contains(r),
    ;
}

/// Relies on rand's `IndexedRandom::choose`, with the thread-local generator: it returns
/// `None` for an empty slice and otherwise one of its elements.
#[verifier::external_body]
fn choose_move(moves: &Vec<ChessMove>) -> (r: Option<ChessMove>)
    ensures
        r is None <==> moves@.len() == 0,
        r matches Some(m) ==> moves@.contains(m),
{
    moves.choose(&mut rand::rng()).copied()
}

/// A move drawn at random from `moves`, which must not be empty.
fn pick_from(moves: &Vec<ChessMove>) -> (r: ChessMove)
    requires
        moves@.len() > 0,
    ensures
        moves@.contains(r),
{
    match choose_move(moves) {
        Some(m) => m,
        None => moves[0],
    }
}

/// A legal move drawn at random.
fn pick_random_move(position: &Position) -> (r: ChessMove)
    requires
        position.wf(),
        position@.all_legal().len() > 0,
    ensures
        position@.all_legal().contains(r),
{
    pick_from(&position.all_legal_moves())
}

/// Always plays the first legal move, square by square.
pub struct FirstMovePlayer;

impl Player for FirstMovePlayer {
    fn offer_move(&self, position: &Position) -> (r: ChessMove) {
        let moves = position.all_legal_moves();
        assert(moves@.contains(moves@[0]));
        moves[0]
    }
}

/// Plays a legal move at random.
pub struct RandomPlayer;

impl Player for RandomPlayer {
    fn offer_move(&self, position: &Position) -> (r: ChessMove) {
        pick_random_move(position)
    }
}

/// Playing `m` lowers the number of the opponent's pieces.
pub open spec fn is_capture(p: PositionView, m: ChessMove) -> bool {
    p.after_move(m).piece_count(p.to_move.opposite_spec()) < p.piece_count(
        p.to_move.opposite_spec(),
    )
}

/// Plays a capture at random when one is legal, otherwise any legal move at random.
pub struct RandomCapturePrioPlayer;

impl RandomCapturePrioPlayer {
    /// The legal moves that capture, in generation order.
    pub fn capturing_moves(&self, position: &Position) -> (r: Vec<ChessMove>)
        requires
            position.wf(),
        ensures
            r@ == position@.all_legal().filter(|m: ChessMove| is_capture(position@, m)),
    {
        let ghost pred = |m: ChessMove| is_capture(position@, m);
        let moves = position.all_legal_moves();
        proof {
            lemma_legal_in_bounds(position@, 64);
        }
        let opponent = position.to_move.opposite();
        let before = position.piece_count(opponent);
        let mut captures: Vec<ChessMove> = Vec::new();
        let mut i: usize = 0;
        while i < moves.len()
            invariant
                position.wf(),
                moves@ == position@.all_legal(),
                forall|j: int| 0 <= j < moves@.len() ==> (#[trigger] moves@[j]).in_bounds(),
                opponent == position.to_move.opposite_spec(),
                before == position@.piece_count(opponent),
                pred == (|m: ChessMove| is_capture(position@, m)),
                0 <= i <= moves@.len(),
                captures@ == moves@.subrange(0, i as int).filter(pred),
            decreases moves@.len() - i,
        {
            proof {
                reveal(Seq::filter);
                assert(moves@.subrange(0, i + 1).drop_last() =~= moves@.subrange(0, i as int));
            }
            let after = position.after_move(&moves[i]);
            if after.piece_count(opponent) < before {
                captures.push(moves[i]);
            }
            i = i + 1;
        }
        assert(moves@.subrange(0, i as int) =~= moves@);
        captures
    }
}

impl RandomCapturePrioPlayer {
    /// A legal move drawn at random, among the captures when there is one.
    pub fn offer_capture_first(&self, position: &Position) -> (r: ChessMove)
        requires
            position.wf(),
            position@.all_legal().len() > 0,
        ensures
            position@.all_legal().contains(r),
            (exists|m: ChessMove| position@.all_legal().contains(m) && is_capture(position@, m))
                ==> is_capture(position@, r),
    {
        let ghost pred = |m: ChessMove| is_capture(position@, m);
        let captures = self.capturing_moves(position);
        if captures.len() > 0 {
            let m = pick_from(&captures);
            proof {
                position@.all_legal().lemma_filter_contains_rev(pred, m);
                let k = choose|k: int| 0 <= k < captures@.len() && captures@[k] == m;
                position@.all_legal().lemma_filter_pred(pred, k);
            }
            m
        } else {
            proof {
                if exists|m: ChessMove| position@.all_legal().contains(m) && is_capture(position@, m) {
                    let m = choose|m: ChessMove| position@.all_legal().contains(m) && is_capture(position@, m);
                    let k = choose|k: int| 0 <= k < position@.all_legal().len() && position@.all_legal()[k] == m;
                    position@.all_legal().lemma_filter_contains(pred, k);
                }
            }
            pick_random_move(position)
        }
    }
}

impl Player for RandomCapturePrioPlayer {
    fn offer_move(&self, position: &Position) -> (r: ChessMove) {
        self.offer_capture_first(position)
    }
}

pub open spec fn piece_value_spec(kind: PieceKind) -> int {
    match kind {
        PieceKind::King => 0,
        PieceKind::Pawn => 10,
        PieceKind::Rook => 50,
        PieceKind::Bishop => 30,
        PieceKind::Knight => 20,
        PieceKind::Queen => 100,
    }
}

/// A piece's worth for the side `to_move`: its value, negated for an opposing piece, and
/// doubled when it is not attacked.
pub open spec fn piece_score(piece: Piece, is_attacked: bool, to_move: PieceColor) -> int {
    piece_value_spec(piece.kind) * ((if to_move == piece.color {
        1int
    } else {
        -1int
    }) * (if !is_attacked {
        2int
    } else {
        1int
    }))
}

/// The static score of the first `n` squares for the side to move.
pub open spec fn score_upto(p: PositionView, n: nat) -> int
    decreases n,
{
    if n == 0 {
        0
    } else {
        score_upto(p, (n - 1) as nat) + match p.at(square_of(n - 1)) {
            None => 0,
            Some(piece) => piece_score(
                piece,
                p.attacked_by(p.to_move.opposite_spec(), square_of(n - 1)),
                p.to_move,
            ),
        }
    }
}

/// The static score of a position for its side to move.
pub open spec fn evaluation(p: PositionView) -> int {
    score_upto(p, 64)
}

/// The score of the position after `m`, for the side that plays `m`.
pub open spec fn move_score(p: PositionView, m: ChessMove) -> int {
    -evaluation(p.after_move(m))
}

/// Plays, at random, one of the legal moves after which the static score is best for the
/// side that moves.
pub struct BasicEvaluationPlayer;

impl BasicEvaluationPlayer {
    /// The static score of `position` for its side to move.
    pub fn evaluate(&self, position: &Position) -> (r: isize)
        requires
            position.wf(),
        ensures
            r == evaluation(position@),
            -12800 <= r <= 12800,
    {
        let squares = all_squares();
        let opponent = position.to_move.opposite();
        let mut total: isize = 0;
        let mut k: usize = 0;
        while k < squares.len()
            invariant
                position.wf(),
                squares@ == Seq::new(64, |i: int| square_of(i)),
                forall|i: int| 0 <= i < 64 ==> (#[trigger] squares@[i]).in_bounds(),
                opponent == position.to_move.opposite_spec(),
                0 <= k <= 64,
                total == score_upto(position@, k as nat),
                -200 * k <= total <= 200 * k,
            decreases 64 - k,
        {
            assert(squares@[k as int] == square_of(k as int));
            let term = match piece_at(&position.board, &squares[k]) {
                None => 0,
                Some(piece) => self.evaluate_piece(
                    &piece,
                    position.is_attacked_by(&opponent, &squares[k]),
                    &position.to_move,
                ),
            };
            total = total + term;
            k = k + 1;
        }
        total
    }

    pub fn evaluate_piece(&self, piece: &Piece, is_attacked: bool, to_move: &PieceColor) -> (r:
        isize)
        ensures
            r == piece_score(*piece, is_attacked, *to_move),
            -200 <= r <= 200,
    {
        let sign: isize = if *to_move == piece.color {
            1
        } else {
            -1
        };
        let weight: isize = if !is_attacked {
            2
        } else {
            1
        };
        self.piece_value(&piece.kind) * (sign * weight)
    }

    pub fn piece_value(&self, kind: &PieceKind) -> (r: isize)
        ensures
            r == piece_value_spec(*kind),
    {
        match kind {
            PieceKind::King => 0,
            PieceKind::Pawn => 10,
            PieceKind::Rook => 50,
            PieceKind::Bishop => 30,
            PieceKind::Knight => 20,
            PieceKind::Queen => 100,
        }
    }

    /// The legal moves whose score for the mover is the best, in generation order.
    pub fn best_moves(&self, position: &Position) -> (r: Vec<ChessMove>)
        requires
            position.wf(),
            position@.all_legal().len() > 0,
        ensures
            r@.len() > 0,
            forall|j: int| 0 <= j < r@.len() ==> position@.all_legal().contains(#[trigger] r@[j]),
            forall|j: int, m: ChessMove|
                #![trigger r@[j], move_score(position@, m)]
                0 <= j < r@.len() && position@.all_legal().contains(m) ==> move_score(position@, m)
                    <= move_score(position@, r@[j]),
    {
        let moves = position.all_legal_moves();
        proof {
            lemma_legal_in_bounds(position@, 64);
        }
        let mut scores: Vec<isize> = Vec::new();
        let mut i: usize = 0;
        while i < moves.len()
            invariant
                position.wf(),
                moves@ == position@.all_legal(),
                forall|j: int| 0 <= j < moves@.len() ==> (#[trigger] moves@[j]).in_bounds(),
                0 <= i <= moves@.len(),
                scores@.len() == i,
                forall|j: int|
                    0 <= j < i ==> #[trigger] scores@[j] == move_score(position@, moves@[j])
                        && -12800 <= scores@[j] <= 12800,
            decreases moves@.len() - i,
        {
            let after = position.after_move(&moves[i]);
            let score = self.evaluate(&after);
            scores.push(-score);
            i = i + 1;
        }
        let mut best: isize = scores[0];
        let mut b: usize = 0;
        let mut i: usize = 1;
        while i < scores.len()
            invariant
                scores@.len() == moves@.len(),
                moves@.len() > 0,
                0 < i <= scores@.len(),
                b < i,
                best == scores@[b as int],
                forall|j: int| 0 <= j < i ==> #[trigger] scores@[j] <= best,
            decreases scores@.len() - i,
        {
            if scores[i] > best {
                best = scores[i];
                b = i;
            }
            i = i + 1;
        }
        let mut candidates: Vec<ChessMove> = Vec::new();
        let mut i: usize = 0;
        while i < moves.len()
            invariant
                scores@.len() == moves@.len(),
                moves@ == position@.all_legal(),
                forall|j: int|
                    0 <= j < moves@.len() ==> #[trigger] scores@[j] == move_score(
                        position@,
                        moves@[j],
                    ),
                forall|j: int| 0 <= j < scores@.len() ==> #[trigger] scores@[j] <= best,
                b < moves@.len(),
                best == scores@[b as int],
                0 <= i <= moves@.len(),
                i > b ==> candidates@.len() > 0,
                forall|j: int|
                    0 <= j < candidates@.len() ==> moves@.contains(#[trigger] candidates@[j])
                        && move_score(position@, candidates@[j]) == best,
            decreases moves@.len() - i,
        {
            if scores[i] == best {
                candidates.push(moves[i]);
                assert(moves@.contains(moves@[i as int]));
            }
            i = i + 1;
        }
        assert forall|j: int, m: ChessMove|
            #![trigger candidates@[j], move_score(position@, m)]
            0 <= j < candidates@.len() && position@.all_legal().contains(m) implies move_score(
            position@,
            m,
        ) <= move_score(position@, candidates@[j]) by {
            let k = choose|k: int| 0 <= k < moves@.len() && moves@[k] == m;
            assert(scores@[k] <= best);
        }
        candidates
    }
}

impl BasicEvaluationPlayer {
    /// A legal move drawn at random among those whose score for the mover is the best.
    pub fn offer_best(&self, position: &Position) -> (r: ChessMove)
        requires
            position.wf(),
            position@.all_legal().len() > 0,
        ensures
            position@.all_legal().contains(r),
            forall|m: ChessMove|
                position@.all_legal().contains(m) ==> move_score(position@, m) <= move_score(
                    position@,
                    r,
                ),
    {
        let best = self.best_moves(position);
        let m = pick_from(&best);
        let ghost k = choose|k: int| 0 <= k < best@.len() && best@[k] == m;
        assert(position@.all_legal().contains(best@[k]));
        assert forall|m2: ChessMove| position@.all_legal().contains(m2) implies move_score(
            position@,
            m2,
        ) <= move_score(position@, m) by {
            assert(move_score(position@, m2) <= move_score(position@, best@[k]));
        }
        m
    }
}

impl Player for BasicEvaluationPlayer {
    fn offer_move(&self, position: &Position) -> (r: ChessMove) {
        self.offer_best(position)
    }
}

} // verus!
