//! The frames on the wire. The server sends a turn notice of one byte or
//! a tag byte followed by the 42 bytes of a grid; a player sends one byte,
//! a column or the wish to leave.

use vstd::prelude::*;
use crate::board::Board;
use crate::grid::{is_grid, Grid};
use crate::wire::{decode_grid, encode_grid, lemma_grid_round_trip, lemma_wire_round_trip, valid_wire};

verus! {

/// Tag of a grid snapshot; 42 bytes follow it.
pub const TAG_BOARD: u8 = 0;

/// Tag of the notice that it is the receiver's turn.
pub const TAG_YOUR_TURN: u8 = 1;

/// Tag of the notice that it is the other player's turn.
pub const TAG_OPPONENT_TURN: u8 = 2;

/// The byte by which a player leaves the match.
pub const RESIGN: u8 = 0;

/// Why bytes from the wire are no frame.
#[derive(Copy, Clone, PartialEq, Eq, Structural, Debug)]
pub enum ProtocolError {
    /// The tag byte is none of the three tags.
    UnknownTag,
    /// The bytes after the tag are not as many as the tag asks for.
    WrongLength,
    /// A byte of a grid snapshot stands for no cell.
    BadCell,
    /// A player's byte is neither a column nor the wish to leave.
    BadColumn,
}

/// A frame from the server, as a value.
pub enum ServerFrame {
    /// It is the receiver's turn.
    YourTurn,
    /// It is the other player's turn.
    OpponentTurn,
    /// The grid as it now stands.
    BoardUpdate(Board),
}

/// What a frame from the server says.
pub ghost enum Frame {
    YourTurn,
    OpponentTurn,
    BoardUpdate(Grid),
}

impl View for ServerFrame {
    type V = Frame;

    open spec fn view(&self) -> Frame {
        match self {
            ServerFrame::YourTurn => Frame::YourTurn,
            ServerFrame::OpponentTurn => Frame::OpponentTurn,
            ServerFrame::BoardUpdate(b) => Frame::BoardUpdate(b@),
        }
    }
}

/// A frame from a player.
#[derive(Copy, Clone, PartialEq, Eq, Structural, Debug)]
pub enum Move {
    /// The player leaves the match.
    Resign,
    /// The player drops a piece into this column, counted from 1 at the left.
    Column(u8),
}

impl Move {
    /// A column of a move is one of the seven of the grid.
    pub open spec fn wf(self) -> bool {
        match self {
            Move::Resign => true,
            Move::Column(n) => 1 <= n <= 7,
        }
    }
}

/// The bytes of a frame from the server: the tag, then what follows it.
pub open spec fn frame_bytes(f: Frame) -> Seq<u8> {
    match f {
        Frame::YourTurn => seq![1u8],
        Frame::OpponentTurn => seq![2u8],
        Frame::BoardUpdate(g) => seq![0u8] + encode_grid(g),
    }
}

/// How many bytes follow the tag `tag`, if it is a tag.
pub open spec fn payload_len_of(tag: u8) -> Result<usize, ProtocolError> {
    if tag == 0 {
        Ok(42usize)
    } else if tag == 1 || tag == 2 {
        Ok(0usize)
    } else {
        Err(ProtocolError::UnknownTag)
    }
}

/// What the tag `tag` followed by the bytes `rest` says, or why it says
/// nothing.
pub open spec fn parse_frame(tag: u8, rest: Seq<u8>) -> Result<Frame, ProtocolError> {
    if tag > 2 {
        Err(ProtocolError::UnknownTag)
    } else if tag == 1 {
        if rest.len() == 0 {
            Ok(Frame::YourTurn)
        } else {
            Err(ProtocolError::WrongLength)
        }
    } else if tag == 2 {
        if rest.len() == 0 {
            Ok(Frame::OpponentTurn)
        } else {
            Err(ProtocolError::WrongLength)
        }
    } else if rest.len() != 42 {
        Err(ProtocolError::WrongLength)
    } else if !valid_wire(rest) {
        Err(ProtocolError::BadCell)
    } else {
        Ok(Frame::BoardUpdate(decode_grid(rest)))
    }
}

/// What a player's byte says, or why it says nothing.
pub open spec fn parse_move(b: u8) -> Result<Move, ProtocolError> {
    if b == 0 {
        Ok(Move::Resign)
    } else if b <= 7 {
        Ok(Move::Column(b))
    } else {
        Err(ProtocolError::BadColumn)
    }
}

/// The byte of a player's frame.
pub open spec fn move_byte(m: Move) -> u8 {
    match m {
        Move::Resign => 0u8,
        Move::Column(n) => n,
    }
}

/// The number of bytes that follow a tag byte on the wire.
pub fn payload_len(tag: u8) -> (r: Result<usize, ProtocolError>)
    ensures
        r == payload_len_of(tag),
{
    if tag == TAG_BOARD {
        Ok(42)
    } else if tag == TAG_YOUR_TURN || tag == TAG_OPPONENT_TURN {
        Ok(0)
    } else {
        Err(ProtocolError::UnknownTag)
    }
}

/// The frame that carries the grid `board`: the tag 0 and the 42 bytes of
/// the grid.
pub fn board_frame(board: &Board) -> (out: Vec<u8>)
    ensures
        out@ == frame_bytes(Frame::BoardUpdate(board@)),
        out@.len() == 43,
{
    let buf: [u8; 42] = board.to_buffer();
    let mut out: Vec<u8> = Vec::with_capacity(43);
    out.push(TAG_BOARD);
    let mut i: usize = 0;
    while i < 42
        invariant
            i <= 42,
            buf@.len() == 42,
            out@.len() == i + 1,
            out@[0] == 0u8,
            forall|k: int| 1 <= k <= i ==> #[trigger] out@[k] == buf@[k - 1],
        decreases 42 - i,
    {
        out.push(buf[i]);
        i = i + 1;
    }
    assert(out@ =~= seq![0u8] + buf@);
    out
}

/// Writes a frame from the server as bytes.
pub fn encode_frame(frame: &ServerFrame) -> (out: Vec<u8>)
    ensures
        out@ == frame_bytes(frame@),
{
    match frame {
        ServerFrame::YourTurn => {
            let mut out: Vec<u8> = Vec::new();
            out.push(TAG_YOUR_TURN);
            assert(out@ =~= seq![1u8]);
            out
        },
        ServerFrame::OpponentTurn => {
            let mut out: Vec<u8> = Vec::new();
            out.push(TAG_OPPONENT_TURN);
            assert(out@ =~= seq![2u8]);
            out
        },
        ServerFrame::BoardUpdate(b) => board_frame(b),
    }
}

/// Reads a frame from the server: the tag byte and the bytes that came
/// after it. A tag above 2, a wrong number of bytes after the tag, and a
/// grid byte above 2 are each refused with their own error.
pub fn decode_frame(tag: u8, rest: &[u8]) -> (r: Result<ServerFrame, ProtocolError>)
    ensures
        match parse_frame(tag, rest@) {
            Ok(f) => r is Ok && r->Ok_0@ == f,
            Err(e) => r is Err && r->Err_0 == e,
        },
{
    if tag > 2 {
        Err(ProtocolError::UnknownTag)
    } else if tag == TAG_YOUR_TURN {
        if rest.len() == 0 {
            Ok(ServerFrame::YourTurn)
        } else {
            Err(ProtocolError::WrongLength)
        }
    } else if tag == TAG_OPPONENT_TURN {
        if rest.len() == 0 {
            Ok(ServerFrame::OpponentTurn)
        } else {
            Err(ProtocolError::WrongLength)
        }
    } else if rest.len() != 42 {
        Err(ProtocolError::WrongLength)
    } else {
        match Board::from_buffer(rest) {
            Some(b) => Ok(ServerFrame::BoardUpdate(b)),
            None => Err(ProtocolError::BadCell),
        }
    }
}

/// Reads a player's byte: 0 leaves the match, 1 to 7 name a column, and
/// every other byte is refused.
pub fn decode_move(b: u8) -> (r: Result<Move, ProtocolError>)
    ensures
        r == parse_move(b),
        r.is_ok() <==> b <= 7,
        r.is_ok() ==> r.unwrap().wf(),
{
    if b == RESIGN {
        Ok(Move::Resign)
    } else if b <= 7 {
        Ok(Move::Column(b))
    } else {
        Err(ProtocolError::BadColumn)
    }
}

/// Writes a player's frame as its one byte.
pub fn encode_move(m: Move) -> (b: u8)
    ensures
        b == move_byte(m),
{
    match m {
        Move::Resign => RESIGN,
        Move::Column(n) => n,
    }
}

/// A frame from the server that is written and read back is the same
/// frame.
pub proof fn lemma_frame_round_trip(f: Frame)
    requires
        f matches Frame::BoardUpdate(g) ==> is_grid(g),
    ensures
        frame_bytes(f).len() >= 1,
        parse_frame(frame_bytes(f)[0], frame_bytes(f).skip(1)) == Ok::<Frame, ProtocolError>(f),
{
    match f {
        Frame::YourTurn => {
            assert(frame_bytes(f).skip(1) =~= Seq::<u8>::empty());
        },
        Frame::OpponentTurn => {
            assert(frame_bytes(f).skip(1) =~= Seq::<u8>::empty());
        },
        Frame::BoardUpdate(g) => {
            lemma_grid_round_trip(g);
            assert(frame_bytes(f).skip(1) =~= encode_grid(g));
        },
    }
}

/// Bytes that are read as a frame and written back are the same bytes.
pub proof fn lemma_bytes_round_trip(tag: u8, rest: Seq<u8>)
    requires
        parse_frame(tag, rest).is_ok(),
    ensures
        frame_bytes(parse_frame(tag, rest).unwrap()) == seq![tag] + rest,
{
    if tag == 0 {
        lemma_wire_round_trip(rest);
    } else {
        assert(seq![tag] + rest =~= seq![tag]);
    }
}

/// A well-formed move that is written and read back is the same move, and
/// a byte that is read as a move is written back as the same byte.
pub proof fn lemma_move_round_trip(m: Move, b: u8)
    ensures
        m.wf() ==> parse_move(move_byte(m)) == Ok::<Move, ProtocolError>(m),
        parse_move(b).is_ok() ==> move_byte(parse_move(b).unwrap()) == b,
{
}

} // verus!
