use vstd::prelude::*;

use crate::piece::PieceKind;

verus! {

/// A square, addressed by file `x` and rank `y`; on the board when both lie in 0..8.
#[derive(Copy, Clone, PartialEq, Eq, Debug, Hash, Structural)]
pub struct Coords {
    pub x: isize,
    pub y: isize,
}

/// A step on the board: file delta `dx`, rank delta `dy`.
#[derive(Copy, Clone, PartialEq, Eq, Debug, Hash, Structural)]
pub struct Direction {
    pub dx: isize,
    pub dy: isize,
}

/// A piece's displacement from `origin` to `destination`.
#[derive(Copy, Clone, PartialEq, Eq, Debug, Hash, Structural)]
pub struct Move {
    pub origin: Coords,
    pub destination: Coords,
}

/// A move as generated by the engine or submitted by a caller.
#[derive(Copy, Clone, PartialEq, Eq, Debug, Hash, Structural)]
pub enum ChessMove {
    RegularMove(Move),
    PawnSkip(Move),
    CastleLeft,
    CastleRight,
    /// The pawn's displacement, and the square of the pawn it captures.
    EnPassant(Move, Coords),
    Promotion(Move, PieceKind),
}

/// Whether the integer pair (x, y) names a square of the board.
pub open spec fn on_board(x: int, y: int) -> bool {
    0 <= x < 8 && 0 <= y < 8
}

impl Coords {
    pub open spec fn in_bounds(self) -> bool {
        on_board(self.x as int, self.y as int)
    }

    /// The square `dx` files and `dy` ranks away; meaningful when that square is on the board.
    pub open spec fn shift(self, dx: int, dy: int) -> Coords {
        Coords { x: (self.x + dx) as isize, y: (self.y + dy) as isize }
    }

    pub open spec fn can_shift(self, dx: int, dy: int) -> bool {
        on_board(self.x + dx, self.y + dy)
    }

    pub fn is_in_bounds(&self) -> (r: bool)
        ensures
            r == self.in_bounds(),
    {
        self.x < 8 && self.x >= 0 && self.y < 8 && self.y >= 0
    }

    /// The square one step `dir` away, or `None` when that leaves the board.
    pub fn step(&self, dir: Direction) -> (r: Option<Coords>)
        ensures
            r == (if self.can_shift(dir.dx as int, dir.dy as int) {
                Some(self.shift(dir.dx as int, dir.dy as int))
            } else {
                None
            }),
    {
        let x: i128 = self.x as i128 + dir.dx as i128;
        let y: i128 = self.y as i128 + dir.dy as i128;
        if 0 <= x && x < 8 && 0 <= y && y < 8 {
            Some(Coords { x: x as isize, y: y as isize })
        } else {
            None
        }
    }
}

impl ChessMove {
    /// Every square that the move names lies on the board.
    pub open spec fn in_bounds(self) -> bool {
        match self {
            ChessMove::RegularMove(m) => m.origin.in_bounds() && m.destination.in_bounds(),
            ChessMove::PawnSkip(m) => m.origin.in_bounds() && m.destination.in_bounds(),
            ChessMove::CastleLeft => true,
            ChessMove::CastleRight => true,
            ChessMove::EnPassant(m, c) => m.origin.in_bounds() && m.destination.in_bounds()
                && c.in_bounds(),
            ChessMove::Promotion(m, _) => m.origin.in_bounds() && m.destination.in_bounds(),
        }
    }

    pub fn is_in_bounds(&self) -> (r: bool)
        ensures
            r == self.in_bounds(),
    {
        match self {
            ChessMove::RegularMove(m) => m.origin.is_in_bounds() && m.destination.is_in_bounds(),
            ChessMove::PawnSkip(m) => m.origin.is_in_bounds() && m.destination.is_in_bounds(),
            ChessMove::CastleLeft => true,
            ChessMove::CastleRight => true,
            ChessMove::EnPassant(m, c) => m.origin.is_in_bounds() && m.destination.is_in_bounds()
                && c.is_in_bounds(),
            ChessMove::Promotion(m, _) => m.origin.is_in_bounds() && m.destination.is_in_bounds(),
        }
    }
}

pub open spec fn cards_spec() -> Seq<Direction> {
    seq![
        Direction { dx: 0, dy: 1 },
        Direction { dx: 0, dy: -1isize },
        Direction { dx: -1isize, dy: 0 },
        Direction { dx: 1, dy: 0 },
    ]
}

pub open spec fn inter_cards_spec() -> Seq<Direction> {
    seq![
        Direction { dx: 1, dy: 1 },
        Direction { dx: -1isize, dy: -1isize },
        Direction { dx: -1isize, dy: 1 },
        Direction { dx: 1, dy: -1isize },
    ]
}

pub open spec fn eight_degrees_spec() -> Seq<Direction> {
    cards_spec() + inter_cards_spec()
}

/// The four orthogonal directions: up, down, left, right.
pub fn cards() -> (r: Vec<Direction>)
    ensures
        r@ == cards_spec(),
{
    let up = Direction { dx: 0, dy: 1 };
    let down = Direction { dx: 0, dy: -1 };
    let left = Direction { dx: -1, dy: 0 };
    let right = Direction { dx: 1, dy: 0 };
    let r = vec![up, down, left, right];
    assert(r@ =~= cards_spec());
    r
}

/// The four diagonal directions.
pub fn inter_cards() -> (r: Vec<Direction>)
    ensures
        r@ == inter_cards_spec(),
{
    let up_right = Direction { dy: 1, dx: 1 };
    let down_left = Direction { dy: -1, dx: -1 };
    let up_left = Direction { dy: 1, dx: -1 };
    let down_right = Direction { dy: -1, dx: 1 };
    let r = vec![up_right, down_left, up_left, down_right];
    assert(r@ =~= inter_cards_spec());
    r
}

/// All eight directions: the orthogonal ones, then the diagonal ones.
pub fn eight_degrees() -> (r: Vec<Direction>)
    ensures
        r@ == eight_degrees_spec(),
{
    let mut directions: Vec<Direction> = Vec::new();
    let mut c = cards();
    let mut d = inter_cards();
    directions.append(&mut c);
    directions.append(&mut d);
    assert(directions@ =~= eight_degrees_spec());
    directions
}

} // verus!
