//! The three things a cell of the grid can hold, and their wire bytes.

use vstd::prelude::*;

verus! {

/// What one cell of the grid holds: nothing, or a piece of one of the two
/// players. `Red` is the player who joined first and moves first.
#[derive(Copy, Clone, PartialEq, Eq, Structural, Debug)]
pub enum Piece {
    Empty,
    Red,
    Yellow,
}

/// The cell that a wire byte stands for. Only 0, 1 and 2 are wire bytes of a
/// cell; on other bytes the value is `Empty` and carries no meaning.
pub open spec fn piece_of(a: u8) -> Piece {
    if a == 1 {
        Piece::Red
    } else if a == 2 {
        Piece::Yellow
    } else {
        Piece::Empty
    }
}

impl Piece {
    /// The byte that stands for this cell on the wire.
    pub open spec fn code(self) -> u8 {
        match self {
            Piece::Empty => 0u8,
            Piece::Red => 1u8,
            Piece::Yellow => 2u8,
        }
    }

    /// Whether this is a player's piece rather than an empty cell.
    pub open spec fn is_player(self) -> bool {
        self != Piece::Empty
    }

    /// The player who moves after this one; `Empty` has no opponent and
    /// is mapped to itself.
    pub open spec fn other(self) -> Piece {
        match self {
            Piece::Empty => Piece::Empty,
            Piece::Red => Piece::Yellow,
            Piece::Yellow => Piece::Red,
        }
    }

    /// Reads a cell from its wire byte. Bytes above 2 are no cell.
    pub fn from_u8(a: u8) -> (r: Option<Piece>)
        ensures
            r.is_some() <==> a <= 2,
            r.is_some() ==> r.unwrap() == piece_of(a),
    {
        match a {
            0 => Some(Piece::Empty),
            1 => Some(Piece::Red),
            2 => Some(Piece::Yellow),
            _ => None,
        }
    }

    /// The wire byte of this cell.
    pub fn to_u8(&self) -> (r: u8)
        ensures
            r == self.code(),
    {
        match self {
            Piece::Empty => 0,
            Piece::Red => 1,
            Piece::Yellow => 2,
        }
    }

    /// The player who moves after this one.
    pub fn opponent(&self) -> (r: Piece)
        ensures
            r == self.other(),
    {
        match self {
            Piece::Empty => Piece::Empty,
            Piece::Red => Piece::Yellow,
            Piece::Yellow => Piece::Red,
        }
    }
}

/// Every cell is read back from its own wire byte.
pub proof fn lemma_piece_round_trip(p: Piece)
    ensures
        p.code() <= 2,
        piece_of(p.code()) == p,
{
}

/// Every wire byte of a cell is written back by the cell it stands for.
pub proof fn lemma_code_round_trip(a: u8)
    requires
        a <= 2,
    ensures
        piece_of(a).code() == a,
{
}

} // verus!
