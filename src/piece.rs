use vstd::prelude::*;

verus! {

/// The six kinds of chess pieces.
#[derive(Copy, Clone, PartialEq, Eq, Debug, Hash, Structural)]
pub enum PieceKind {
    Pawn,
    Rook,
    Knight,
    Bishop,
    Queen,
    King,
}

/// The two sides.
#[derive(Copy, Clone, PartialEq, Eq, Debug, Hash, Structural)]
pub enum PieceColor {
    Black,
    White,
}

/// A piece: its kind and the side it belongs to.
#[derive(Copy, Clone, PartialEq, Eq, Debug, Hash, Structural)]
pub struct Piece {
    pub kind: PieceKind,
    pub color: PieceColor,
}

impl PieceColor {
    pub open spec fn opposite_spec(self) -> PieceColor {
        match self {
            PieceColor::White => PieceColor::Black,
            PieceColor::Black => PieceColor::White,
        }
    }

    /// The rank this side's pieces start on: 0 for White, 7 for Black.
    pub open spec fn homerow_spec(self) -> int {
        match self {
            PieceColor::White => 0,
            PieceColor::Black => 7,
        }
    }

    /// The rank direction in which this side's pawns advance.
    pub open spec fn pawn_orientation_spec(self) -> int {
        match self {
            PieceColor::White => 1,
            PieceColor::Black => -1,
        }
    }

    pub fn opposite(&self) -> (r: PieceColor)
        ensures
            r == self.opposite_spec(),
    {
        match self {
            PieceColor::White => PieceColor::Black,
            PieceColor::Black => PieceColor::White,
        }
    }

    pub fn homerow(&self) -> (r: isize)
        ensures
            r == self.homerow_spec(),
    {
        match self {
            PieceColor::White => 0,
            PieceColor::Black => 7,
        }
    }

    pub fn pawn_orientation(&self) -> (r: isize)
        ensures
            r == self.pawn_orientation_spec(),
    {
        match self {
            PieceColor::White => 1,
            PieceColor::Black => -1,
        }
    }
}

impl PieceKind {
    /// The kinds a pawn may promote to, in the order promotions are offered.
    pub open spec fn promoteable_spec() -> Seq<PieceKind> {
        seq![PieceKind::Queen, PieceKind::Rook, PieceKind::Bishop, PieceKind::Knight]
    }

    pub fn promoteable() -> (r: Vec<PieceKind>)
        ensures
            r@ == Self::promoteable_spec(),
    {
        let r = vec![PieceKind::Queen, PieceKind::Rook, PieceKind::Bishop, PieceKind::Knight];
        assert(r@ =~= Self::promoteable_spec());
        r
    }
}

/// The piece that stands on square (x, y) in the standard starting setup.
pub open spec fn initial_piece(x: int, y: int) -> Option<Piece> {
    let color = if y == 0 || y == 1 {
        PieceColor::White
    } else {
        PieceColor::Black
    };
    if y == 1 || y == 6 {
        Some(Piece { kind: PieceKind::Pawn, color })
    } else if y == 0 || y == 7 {
        if x == 0 || x == 7 {
            Some(Piece { kind: PieceKind::Rook, color })
        } else if x == 1 || x == 6 {
            Some(Piece { kind: PieceKind::Knight, color })
        } else if x == 2 || x == 5 {
            Some(Piece { kind: PieceKind::Bishop, color })
        } else if x == 3 {
            Some(Piece { kind: PieceKind::Queen, color })
        } else {
            Some(Piece { kind: PieceKind::King, color })
        }
    } else {
        None
    }
}

impl Piece {
    /// The piece of the starting setup at file `x`, rank `y`.
    pub fn from_initial_position(x: isize, y: isize) -> (r: Option<Piece>)
        requires
            y == 0 || y == 7 ==> 0 <= x < 8,
        ensures
            r == initial_piece(x as int, y as int),
    {
        let color = if y == 0 || y == 1 {
            PieceColor::White
        } else {
            PieceColor::Black
        };
        if y == 1 || y == 6 {
            Some(Piece { kind: PieceKind::Pawn, color })
        } else if y == 0 || y == 7 {
            let kind = if x == 0 || x == 7 {
                PieceKind::Rook
            } else if x == 1 || x == 6 {
                PieceKind::Knight
            } else if x == 2 || x == 5 {
                PieceKind::Bishop
            } else if x == 3 {
                PieceKind::Queen
            } else {
                PieceKind::King
            };
            Some(Piece { kind, color })
        } else {
            None
        }
    }
}

} // verus!
