//! The values handed to a rules engine: sides, piece kinds, pieces, board
//! squares and moves.

use vstd::prelude::*;

verus! {

/// One of the two players. Black moves first.
#[derive(Clone, Copy, Debug, PartialEq, Eq, Structural)]
pub enum Side {
    Black,
    White,
}

/// The fourteen kinds of piece, under their two-letter notation codes.
/// `TO`, `NY`, `NK`, `NG`, `UM` and `RY` are the promoted forms of
/// `FU`, `KY`, `KE`, `GI`, `KA` and `HI`.
#[derive(Clone, Copy, Debug, PartialEq, Eq, Structural)]
pub enum PieceKind {
    FU,
    KY,
    KE,
    GI,
    KI,
    KA,
    HI,
    OU,
    TO,
    NY,
    NK,
    NG,
    UM,
    RY,
}

impl PieceKind {
    /// Whether this kind is the promoted form of another.
    pub open spec fn is_promoted(self) -> bool {
        self == PieceKind::TO || self == PieceKind::NY || self == PieceKind::NK
            || self == PieceKind::NG || self == PieceKind::UM || self == PieceKind::RY
    }

    /// The kind that promotes to this one, or this kind itself where it is not
    /// a promoted form.
    pub open spec fn base(self) -> PieceKind {
        match self {
            PieceKind::TO => PieceKind::FU,
            PieceKind::NY => PieceKind::KY,
            PieceKind::NK => PieceKind::KE,
            PieceKind::NG => PieceKind::GI,
            PieceKind::UM => PieceKind::KA,
            PieceKind::RY => PieceKind::HI,
            kind => kind,
        }
    }

    /// Takes a promotion back: a promoted kind gives its base kind, any other
    /// kind gives itself.
    pub fn demoted(self) -> (r: PieceKind)
        ensures
            r == self.base(),
            !r.is_promoted(),
            self.is_promoted() <==> r != self,
    {
        match self {
            PieceKind::TO => PieceKind::FU,
            PieceKind::NY => PieceKind::KY,
            PieceKind::NK => PieceKind::KE,
            PieceKind::NG => PieceKind::GI,
            PieceKind::UM => PieceKind::KA,
            PieceKind::RY => PieceKind::HI,
            kind => kind,
        }
    }
}

/// A piece: its kind and the side that owns it.
#[derive(Clone, Copy, Debug, PartialEq, Eq, Structural)]
pub struct Piece {
    pub side: Side,
    pub kind: PieceKind,
}

impl Piece {
    /// The piece of the given side and kind.
    pub fn from_cp(side: Side, kind: PieceKind) -> (r: Piece)
        ensures
            r == (Piece { side, kind }),
    {
        Piece { side, kind }
    }

    /// The same piece with its promotion taken back.
    pub open spec fn base(self) -> Piece {
        Piece { side: self.side, kind: self.kind.base() }
    }

    /// Takes a promotion back and keeps the owner.
    pub fn demoted(self) -> (r: Piece)
        ensures
            r == self.base(),
    {
        Piece { side: self.side, kind: self.kind.demoted() }
    }
}

/// A square of the nine by nine board. Files and ranks count from 1.
#[derive(Clone, Copy, Debug, PartialEq, Eq, Structural)]
pub struct BoardSquare {
    pub file: u8,
    pub rank: u8,
}

impl BoardSquare {
    /// Both coordinates lie between 1 and 9.
    pub open spec fn on_board(self) -> bool {
        1 <= self.file <= 9 && 1 <= self.rank <= 9
    }

    /// The square at the given file and rank, if both lie between 1 and 9.
    pub fn new(file: u8, rank: u8) -> (r: Option<BoardSquare>)
        ensures
            r == (if 1 <= file <= 9 && 1 <= rank <= 9 {
                Some(BoardSquare { file, rank })
            } else {
                None
            }),
    {
        if 1 <= file && file <= 9 && 1 <= rank && rank <= 9 {
            Some(BoardSquare { file, rank })
        } else {
            None
        }
    }
}

/// A move in the form a rules engine takes it.
#[derive(Clone, Copy, Debug, PartialEq, Eq, Structural)]
pub enum Move {
    /// A piece on the board goes from one square to another. `piece` is the
    /// piece as it stood before moving; `promotion` says whether it promotes
    /// on arrival.
    Normal { from: BoardSquare, to: BoardSquare, promotion: bool, piece: Piece },
    /// A captured piece is placed on an empty square.
    Drop { to: BoardSquare, piece: Piece },
}

impl Move {
    /// Every square of the move lies on the board.
    pub open spec fn well_formed(self) -> bool {
        match self {
            Move::Normal { from, to, .. } => from.on_board() && to.on_board(),
            Move::Drop { to, .. } => to.on_board(),
        }
    }

    /// A board move.
    pub fn new_normal(from: BoardSquare, to: BoardSquare, promotion: bool, piece: Piece) -> (r:
        Move)
        ensures
            r == (Move::Normal { from, to, promotion, piece }),
    {
        Move::Normal { from, to, promotion, piece }
    }

    /// A drop.
    pub fn new_drop(to: BoardSquare, piece: Piece) -> (r: Move)
        ensures
            r == (Move::Drop { to, piece }),
    {
        Move::Drop { to, piece }
    }
}

} // verus!
