//! The player's side: a mirror of the grid with the turn flag and the
//! column cursor, what a frame from the server does to it, and what a key
//! does.

use vstd::prelude::*;
use crate::board::Board;
use crate::codec::{decode_frame, parse_frame, Frame, ProtocolError, ServerFrame};
use crate::grid::{empty_grid, Grid};

verus! {

/// A key, as far as the game tells keys apart.
#[derive(Copy, Clone, PartialEq, Eq, Structural, Debug)]
pub enum Key {
    /// The column cursor moves one to the left.
    Left,
    /// The column cursor moves one to the right.
    Right,
    /// The piece is dropped into the column under the cursor.
    Enter,
    /// The player leaves the program.
    Quit,
    /// Any other key.
    Other,
}

/// What the loop that draws the screen is told.
#[derive(Copy, Clone, PartialEq, Eq, Structural, Debug)]
pub enum LocalMessage {
    /// A key was pressed.
    Event(Key),
    /// The server said whose turn it is: `true` for this player's.
    ChangeTurn(bool),
}

/// What the loop does after a message.
#[derive(Copy, Clone, PartialEq, Eq, Structural, Debug)]
pub enum Action {
    /// Draw the screen again.
    Redraw,
    /// Send this column to the server, then draw the screen again.
    Send(u8),
    /// Leave the loop.
    Quit,
}

/// The mirror as a value: the grid, whether it is this player's turn, and
/// the column under the cursor, counted from 1.
pub ghost struct MirrorState {
    pub grid: Grid,
    pub our_turn: bool,
    pub cursor: int,
}

/// The mirror after the message `msg`. Only a turn notice changes the
/// flag, and only the arrow keys move the cursor: during this player's
/// turn, and never off the grid.
pub open spec fn after_message(s: MirrorState, msg: LocalMessage) -> MirrorState {
    match msg {
        LocalMessage::ChangeTurn(t) => MirrorState { our_turn: t, ..s },
        LocalMessage::Event(Key::Left) => if s.our_turn && s.cursor > 1 {
            MirrorState { cursor: s.cursor - 1, ..s }
        } else {
            s
        },
        LocalMessage::Event(Key::Right) => if s.our_turn && s.cursor < 7 {
            MirrorState { cursor: s.cursor + 1, ..s }
        } else {
            s
        },
        LocalMessage::Event(_) => s,
    }
}

/// What the loop does after the message `msg`: the quit key leaves, the
/// enter key sends the column under the cursor if it is this player's
/// turn, and everything else only draws.
pub open spec fn reaction(s: MirrorState, msg: LocalMessage) -> Action {
    match msg {
        LocalMessage::Event(Key::Quit) => Action::Quit,
        LocalMessage::Event(Key::Enter) => if s.our_turn {
            Action::Send(s.cursor as u8)
        } else {
            Action::Redraw
        },
        _ => Action::Redraw,
    }
}

/// The player's copy of the grid, with the turn flag and the cursor.
pub struct ClientMirror {
    board: Board,
    our_turn: bool,
    num: usize,
}

impl View for ClientMirror {
    type V = MirrorState;

    closed spec fn view(&self) -> MirrorState {
        MirrorState { grid: self.board@, our_turn: self.our_turn, cursor: self.num as int }
    }
}

impl ClientMirror {
    #[verifier::type_invariant]
    spec fn well_formed(&self) -> bool {
        1 <= self.num <= 7
    }

    /// A mirror before anything came from the server: the grid is empty,
    /// it is not this player's turn, and the cursor is on the first column.
    pub fn new() -> (m: ClientMirror)
        ensures
            m@ == (MirrorState { grid: empty_grid(), our_turn: false, cursor: 1 }),
    {
        ClientMirror { board: Board::new(), our_turn: false, num: 1 }
    }

    /// The grid as the server last sent it.
    pub fn board(&self) -> (b: Board)
        ensures
            b@ == self@.grid,
    {
        self.board
    }

    /// Whether it is this player's turn.
    pub fn our_turn(&self) -> (t: bool)
        ensures
            t == self@.our_turn,
    {
        self.our_turn
    }

    /// The column under the cursor, from 1 to 7.
    pub fn cursor(&self) -> (n: usize)
        ensures
            n == self@.cursor,
            1 <= n <= 7,
    {
        proof {
            use_type_invariant(self);
        }
        self.num
    }

    /// The column to show as selected: the cursor during this player's
    /// turn, and 0, which is no column, otherwise.
    pub fn highlighted(&self) -> (n: usize)
        ensures
            n == (if self@.our_turn {
                self@.cursor
            } else {
                0
            }),
    {
        if self.our_turn {
            self.num
        } else {
            0
        }
    }

    /// Takes a frame from the server, given as its tag byte and the bytes
    /// that followed. A grid snapshot replaces the grid of the mirror and
    /// nothing else; a turn notice leaves the mirror alone and becomes the
    /// message for the drawing loop; bytes that are no frame are refused
    /// and change nothing.
    pub fn receive(&mut self, tag: u8, rest: &[u8]) -> (r: Result<Option<LocalMessage>, ProtocolError>)
        ensures
            match parse_frame(tag, rest@) {
                Ok(Frame::BoardUpdate(g)) => r == Ok::<Option<LocalMessage>, ProtocolError>(None)
                    && final(self)@ == (MirrorState { grid: g, ..old(self)@ }),
                Ok(Frame::YourTurn) => r == Ok::<Option<LocalMessage>, ProtocolError>(
                    Some(LocalMessage::ChangeTurn(true)),
                ) && final(self)@ == old(self)@,
                Ok(Frame::OpponentTurn) => r == Ok::<Option<LocalMessage>, ProtocolError>(
                    Some(LocalMessage::ChangeTurn(false)),
                ) && final(self)@ == old(self)@,
                Err(e) => r == Err::<Option<LocalMessage>, ProtocolError>(e) && final(self)@ == old(
                    self,
                )@,
            },
    {
        proof {
            use_type_invariant(&*self);
        }
        match decode_frame(tag, rest) {
            Ok(ServerFrame::BoardUpdate(b)) => {
                self.board = b;
                Ok(None)
            },
            Ok(ServerFrame::YourTurn) => Ok(Some(LocalMessage::ChangeTurn(true))),
            Ok(ServerFrame::OpponentTurn) => Ok(Some(LocalMessage::ChangeTurn(false))),
            Err(e) => Err(e),
        }
    }

    /// Takes one message in the drawing loop and says what the loop does
    /// next. The grid is never changed here: a column that is sent shows
    /// on the grid only when the server sends the new grid.
    pub fn handle(&mut self, msg: LocalMessage) -> (act: Action)
        ensures
            final(self)@ == after_message(old(self)@, msg),
            act == reaction(old(self)@, msg),
            final(self)@.grid == old(self)@.grid,
            1 <= final(self)@.cursor <= 7,
            act matches Action::Send(n) ==> old(self)@.our_turn && 1 <= n <= 7,
    {
        proof {
            use_type_invariant(&*self);
        }
        match msg {
            LocalMessage::ChangeTurn(t) => {
                self.our_turn = t;
                Action::Redraw
            },
            LocalMessage::Event(key) => match key {
                Key::Quit => Action::Quit,
                Key::Enter => {
                    if self.our_turn {
                        Action::Send(self.num as u8)
                    } else {
                        Action::Redraw
                    }
                },
                Key::Left => {
                    if self.num > 1 && self.our_turn {
                        self.num = self.num - 1;
                    }
                    Action::Redraw
                },
                Key::Right => {
                    if self.num < 7 && self.our_turn {
                        self.num = self.num + 1;
                    }
                    Action::Redraw
                },
                Key::Other => Action::Redraw,
            },
        }
    }
}

} // verus!
