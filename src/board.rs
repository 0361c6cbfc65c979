use vstd::prelude::*;

use crate::coords::{Coords, Direction};
use crate::piece::{Piece, PieceColor};

verus! {

/// The board as a grid of ranks, each a sequence of files.
pub open spec fn board_view(b: &Vec<Vec<Option<Piece>>>) -> Seq<Seq<Option<Piece>>> {
    Seq::new(b@.len(), |i: int| b@[i]@)
}

/// The grid has eight ranks of eight squares.
pub open spec fn board_wf(b: Seq<Seq<Option<Piece>>>) -> bool {
    &&& b.len() == 8
    &&& forall|i: int| 0 <= i < 8 ==> #[trigger] b[i].len() == 8
}

/// What stands on square `c`.
pub open spec fn cell(b: Seq<Seq<Option<Piece>>>, c: Coords) -> Option<Piece> {
    b[c.y as int][c.x as int]
}

/// The grid with square `c` holding `v`.
pub open spec fn set_cell(b: Seq<Seq<Option<Piece>>>, c: Coords, v: Option<Piece>) -> Seq<
    Seq<Option<Piece>>,
> {
    b.update(c.y as int, b[c.y as int].update(c.x as int, v))
}

/// The grid with the piece on `from` carried to `to`; unchanged when `from` is empty.
pub open spec fn relocate(b: Seq<Seq<Option<Piece>>>, from: Coords, to: Coords) -> Seq<
    Seq<Option<Piece>>,
> {
    match cell(b, from) {
        Some(p) => set_cell(set_cell(b, from, None), to, Some(p)),
        None => b,
    }
}

/// The squares reached by walking from `cur` along `d` for at most `steps` steps: the walk
/// stops at the board's edge, and at the first occupied square, which is included when it
/// holds a piece of the side opposing `color`.
pub open spec fn ray_from(
    b: Seq<Seq<Option<Piece>>>,
    cur: Coords,
    d: Direction,
    color: PieceColor,
    steps: nat,
) -> Seq<Coords>
    decreases steps,
{
    if steps == 0 || !cur.can_shift(d.dx as int, d.dy as int) {
        seq![]
    } else {
        let next = cur.shift(d.dx as int, d.dy as int);
        match cell(b, next) {
            Some(p) => if p.color == color.opposite_spec() {
                seq![next]
            } else {
                seq![]
            },
            None => seq![next] + ray_from(b, next, d, color, (steps - 1) as nat),
        }
    }
}

/// The number of steps a ray may take: `limit`, or 7 when none is given.
pub open spec fn ray_steps(limit: Option<isize>) -> nat {
    let l: int = match limit {
        Some(l) => l as int,
        None => 7,
    };
    if l < 0 {
        0
    } else {
        l as nat
    }
}

pub open spec fn ray(
    b: Seq<Seq<Option<Piece>>>,
    origin: Coords,
    d: Direction,
    color: PieceColor,
    limit: Option<isize>,
) -> Seq<Coords> {
    ray_from(b, origin, d, color, ray_steps(limit))
}

/// Every square of a ray lies on the board.
pub proof fn lemma_ray_in_bounds(
    b: Seq<Seq<Option<Piece>>>,
    cur: Coords,
    d: Direction,
    color: PieceColor,
    steps: nat,
)
    ensures
        forall|i: int|
            0 <= i < ray_from(b, cur, d, color, steps).len() ==> (#[trigger] ray_from(
                b,
                cur,
                d,
                color,
                steps,
            )[i]).in_bounds(),
    decreases steps,
{
    if steps > 0 && cur.can_shift(d.dx as int, d.dy as int) {
        let next = cur.shift(d.dx as int, d.dy as int);
        lemma_ray_in_bounds(b, next, d, color, (steps - 1) as nat);
        if cell(b, next) is None {
            let rest = ray_from(b, next, d, color, (steps - 1) as nat);
            assert forall|i: int|
                0 <= i < ray_from(b, cur, d, color, steps).len() implies (#[trigger] ray_from(
                b,
                cur,
                d,
                color,
                steps,
            )[i]).in_bounds() by {
                if i > 0 {
                    assert(ray_from(b, cur, d, color, steps)[i] == rest[i - 1]);
                }
            }
        }
    }
}

pub proof fn lemma_set_cell_wf(b: Seq<Seq<Option<Piece>>>, c: Coords, v: Option<Piece>)
    requires
        board_wf(b),
        c.in_bounds(),
    ensures
        board_wf(set_cell(b, c, v)),
{
    let r = set_cell(b, c, v);
    assert forall|i: int| 0 <= i < 8 implies #[trigger] r[i].len() == 8 by {
        if i != c.y as int {
            assert(r[i] == b[i]);
        }
    }
}

pub proof fn lemma_relocate_wf(b: Seq<Seq<Option<Piece>>>, from: Coords, to: Coords)
    requires
        board_wf(b),
        from.in_bounds(),
        to.in_bounds(),
    ensures
        board_wf(relocate(b, from, to)),
{
    if let Some(p) = cell(b, from) {
        lemma_set_cell_wf(b, from, None);
        lemma_set_cell_wf(set_cell(b, from, None), to, Some(p));
    }
}

/// The square at `loc`.
pub fn piece_at(board: &Vec<Vec<Option<Piece>>>, loc: &Coords) -> (r: Option<Piece>)
    requires
        board_wf(board_view(board)),
        loc.in_bounds(),
    ensures
        r == cell(board_view(board), *loc),
{
    board[loc.y as usize][loc.x as usize]
}

/// Empties the square at `loc` and returns what stood there.
pub fn take_piece_at(board: &mut Vec<Vec<Option<Piece>>>, loc: Coords) -> (r: Option<Piece>)
    requires
        board_wf(board_view(old(board))),
        loc.in_bounds(),
    ensures
        r == cell(board_view(old(board)), loc),
        board_view(final(board)) == set_cell(board_view(old(board)), loc, None),
{
    let r = board[loc.y as usize][loc.x as usize];
    board[loc.y as usize][loc.x as usize] = None;
    assert(board_view(board) =~~= set_cell(board_view(old(board)), loc, None));
    r
}

/// Sets `piece` on the square at `loc`, replacing what stood there.
pub fn put_piece_at(board: &mut Vec<Vec<Option<Piece>>>, piece: Piece, loc: Coords)
    requires
        board_wf(board_view(old(board))),
        loc.in_bounds(),
    ensures
        board_view(final(board)) == set_cell(board_view(old(board)), loc, Some(piece)),
{
    assert(board_view(board)[loc.y as int].len() == 8);
    board[loc.y as usize][loc.x as usize] = Some(piece);
    assert(board_view(board) =~~= set_cell(board_view(old(board)), loc, Some(piece)));
}

/// Carries the piece on `origin` to `dest`; does nothing when `origin` is empty.
pub fn move_piece(board: &mut Vec<Vec<Option<Piece>>>, origin: Coords, dest: Coords)
    requires
        board_wf(board_view(old(board))),
        origin.in_bounds(),
        dest.in_bounds(),
    ensures
        board_view(final(board)) == relocate(board_view(old(board)), origin, dest),
{
    let ghost b = board_view(board);
    if let Some(origin_piece) = take_piece_at(board, origin) {
        put_piece_at(board, origin_piece, dest);
    } else {
        assert(set_cell(b, origin, None) =~~= b);
    }
}

/// The squares a piece of `origin_color` standing on `origin` reaches along `direction`,
/// in order of distance, taking at most `limit` steps (7 when none is given).
pub fn raycast(
    board: &Vec<Vec<Option<Piece>>>,
    origin: &Coords,
    direction: &Direction,
    origin_color: &PieceColor,
    limit: Option<isize>,
) -> (r: Vec<Coords>)
    requires
        board_wf(board_view(board)),
    ensures
        r@ == ray(board_view(board), *origin, *direction, *origin_color, limit),
{
    let mut left: isize = match limit {
        Some(l) => l,
        None => 7,
    };
    if left < 0 {
        left = 0;
    }
    let ghost b = board_view(board);
    let mut squares: Vec<Coords> = Vec::new();
    let mut cur = *origin;
    while left > 0
        invariant
            b == board_view(board),
            board_wf(b),
            left >= 0,
            squares@ + ray_from(b, cur, *direction, *origin_color, left as nat) == ray(
                b,
                *origin,
                *direction,
                *origin_color,
                limit,
            ),
        decreases left,
    {
        let ghost before = ray_from(b, cur, *direction, *origin_color, left as nat);
        match cur.step(*direction) {
            None => {
                left = 0;
                assert(squares@ + seq![] =~= squares@);
            },
            Some(next) => {
                match piece_at(board, &next) {
                    Some(piece) => {
                        if piece.color == origin_color.opposite() {
                            squares.push(next);
                        } else {
                            assert(squares@ + seq![] =~= squares@);
                        }
                        left = 0;
                        assert(squares@ + seq![] =~= squares@);
                    },
                    None => {
                        squares.push(next);
                        assert(before == seq![next] + ray_from(
                            b,
                            next,
                            *direction,
                            *origin_color,
                            (left - 1) as nat,
                        ));
                        cur = next;
                        left = left - 1;
                    },
                }
            },
        }
    }
    assert(squares@ + seq![] =~= squares@);
    squares
}

} // verus!
