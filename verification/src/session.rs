//! One match between two players: whose turn it is, what a byte from the
//! player to move does to the grid, what is sent to whom, and when the
//! match is over.

use vstd::prelude::*;
use crate::board::Board;
use crate::codec::{board_frame, decode_move, frame_bytes, Frame, Move, TAG_OPPONENT_TURN, TAG_YOUR_TURN};
use crate::grid::{
    cell, column_full, drop_piece, empty_grid, filled, four_through, gravity, grid_full, has_four,
    is_grid, landing_row, lemma_drop_keeps_gravity, lemma_empty_grid, lemma_filled_after_set,
    lemma_filled_bound, lemma_filled_empty, lemma_four_after_set, lemma_full_is_all_filled,
    lemma_landing_row, set_cell, Grid,
};
use crate::piece::Piece;

verus! {

/// Why a match is over.
#[derive(Copy, Clone, PartialEq, Eq, Structural, Debug)]
pub enum Reason {
    /// The first player has four in a row.
    WinA,
    /// The second player has four in a row.
    WinB,
    /// The grid is full and nobody has four in a row.
    Draw,
    /// A player left, or the connection to a player broke.
    PeerDisconnected,
    /// A player sent a byte that is no move.
    ProtocolError,
}

/// Whether a match is going on.
#[derive(Copy, Clone, PartialEq, Eq, Structural, Debug)]
pub enum Status {
    /// A player is to move.
    Active,
    /// The match is over.
    Finished(Reason),
}

/// What came of reading one byte from the player to move.
#[derive(Copy, Clone, PartialEq, Eq, Structural, Debug)]
pub enum Input {
    /// The byte that was read.
    Byte(u8),
    /// The read failed.
    Failed,
}

/// What has to go out after a step: the bytes for the first player, the
/// bytes for the second, and whether both connections are then closed.
pub struct Outgoing {
    pub to_first: Vec<u8>,
    pub to_second: Vec<u8>,
    pub close: bool,
}

/// A match as a value: the grid, the player to move and the status.
pub ghost struct MatchState {
    pub grid: Grid,
    pub turn: Piece,
    pub status: Status,
}

/// A match at its start: an empty grid, and the first player to move.
pub open spec fn start_state() -> MatchState {
    MatchState { grid: empty_grid(), turn: Piece::Red, status: Status::Active }
}

/// The reason with which player `p` wins.
pub open spec fn win_reason(p: Piece) -> Reason {
    if p == Piece::Red {
        Reason::WinA
    } else {
        Reason::WinB
    }
}

/// The input places a piece: the match is going on, the byte names a
/// column, and the column has room.
pub open spec fn places(s: MatchState, input: Input) -> bool {
    &&& s.status == Status::Active
    &&& input matches Input::Byte(b)
    &&& 1 <= b <= 7
    &&& !column_full(s.grid, b - 1)
}

/// The input is refused because its column is full.
pub open spec fn refused(s: MatchState, input: Input) -> bool {
    &&& s.status == Status::Active
    &&& input matches Input::Byte(b)
    &&& 1 <= b <= 7
    &&& column_full(s.grid, b - 1)
}

/// The status after `mover` placed a piece in `(row, col)` of what is now
/// the grid `g`.
pub open spec fn verdict(g: Grid, row: int, col: int, mover: Piece) -> Status {
    if four_through(g, row, col) {
        Status::Finished(win_reason(mover))
    } else if grid_full(g) {
        Status::Finished(Reason::Draw)
    } else {
        Status::Active
    }
}

/// The match after one input from the player to move.
pub open spec fn next(s: MatchState, input: Input) -> MatchState {
    if s.status != Status::Active {
        s
    } else {
        match input {
            Input::Failed => MatchState {
                status: Status::Finished(Reason::PeerDisconnected),
                ..s
            },
            Input::Byte(b) => {
                if b == 0 {
                    MatchState { status: Status::Finished(Reason::PeerDisconnected), ..s }
                } else if b > 7 {
                    MatchState { status: Status::Finished(Reason::ProtocolError), ..s }
                } else if column_full(s.grid, b - 1) {
                    s
                } else {
                    let g = drop_piece(s.grid, b - 1, s.turn);
                    let status = verdict(g, landing_row(s.grid, b - 1), b - 1, s.turn);
                    MatchState {
                        grid: g,
                        turn: if status == Status::Active {
                            s.turn.other()
                        } else {
                            s.turn
                        },
                        status,
                    }
                }
            },
        }
    }
}

/// The turn notice for player `who` when `turn` is to move.
pub open spec fn notice(turn: Piece, who: Piece) -> Seq<u8> {
    if who == turn {
        seq![1u8]
    } else {
        seq![2u8]
    }
}

/// What player `who` is sent when a turn begins.
pub open spec fn prompt_to(s: MatchState, who: Piece) -> Seq<u8> {
    if s.status == Status::Active {
        notice(s.turn, who)
    } else {
        Seq::<u8>::empty()
    }
}

/// What player `who` is sent after the input `input` in the match `s`.
///
/// A placed piece sends the new grid to both, followed by the notices of
/// the next turn where the match goes on. The end of the match by a
/// leaving player, a failed read or a byte that is no move sends the grid
/// as it stands to both. A full column sends the player to move a new
/// notice and the other player nothing. After the end nothing is sent.
pub open spec fn sent_to(s: MatchState, input: Input, who: Piece) -> Seq<u8> {
    let n = next(s, input);
    if s.status != Status::Active {
        Seq::<u8>::empty()
    } else if places(s, input) {
        frame_bytes(Frame::BoardUpdate(n.grid)) + prompt_to(n, who)
    } else if refused(s, input) {
        if who == s.turn {
            seq![1u8]
        } else {
            Seq::<u8>::empty()
        }
    } else {
        frame_bytes(Frame::BoardUpdate(s.grid))
    }
}

/// Nobody has four in a row on `g`.
pub open spec fn no_four(g: Grid) -> bool {
    !has_four(g, Piece::Red) && !has_four(g, Piece::Yellow)
}

/// What holds of every match: the grid has its shape and no piece floats,
/// a player is to move, and the status says what is on the grid. While the
/// match goes on nobody has four in a row and a column has room; a win
/// means that the winner, and only the winner, has four in a row; a draw
/// means that the grid is full and nobody has.
pub open spec fn inv(s: MatchState) -> bool {
    &&& is_grid(s.grid)
    &&& gravity(s.grid)
    &&& s.turn != Piece::Empty
    &&& match s.status {
        Status::Finished(Reason::WinA) => has_four(s.grid, Piece::Red) && !has_four(
            s.grid,
            Piece::Yellow,
        ),
        Status::Finished(Reason::WinB) => has_four(s.grid, Piece::Yellow) && !has_four(
            s.grid,
            Piece::Red,
        ),
        Status::Finished(Reason::Draw) => grid_full(s.grid) && no_four(s.grid),
        _ => !grid_full(s.grid) && no_four(s.grid),
    }
}

/// A match at its start is as every match must be.
pub proof fn lemma_start_inv()
    ensures
        inv(start_state()),
{
    lemma_empty_grid();
    let g = empty_grid();
    assert(!column_full(g, 0)) by {
        assert(cell(g, 0, 0) == Piece::Empty);
    }
    assert(!has_four(g, Piece::Red)) by {
        if has_four(g, Piece::Red) {
            let (r, c) = choose|r: int, c: int| #[trigger] crate::grid::four_from(g, r, c, Piece::Red);
        }
    }
    assert(!has_four(g, Piece::Yellow)) by {
        if has_four(g, Piece::Yellow) {
            let (r, c) = choose|r: int, c: int| #[trigger]
                crate::grid::four_from(g, r, c, Piece::Yellow);
        }
    }
}

/// Whatever the input, a match stays as every match must be. So the
/// match ends with a win exactly when the piece just placed gives its
/// player four in a row, and with a draw exactly when it fills the grid
/// without doing so.
pub proof fn lemma_next_keeps_inv(s: MatchState, input: Input)
    requires
        inv(s),
    ensures
        inv(next(s, input)),
{
    if places(s, input) {
        let b = input->Byte_0;
        let c = b - 1;
        let g = s.grid;
        lemma_landing_row(g, c);
        let l = landing_row(g, c);
        lemma_drop_keeps_gravity(g, c, s.turn);
        assert(crate::grid::is_landing(g, c, l));
        lemma_four_after_set(g, l, c, s.turn, s.turn.other());
        assert(drop_piece(g, c, s.turn) == set_cell(g, l, c, s.turn));
    }
}

/// A full column takes no piece and costs no turn: the match stays
/// exactly as it was, the player to move is asked again, and the other
/// player is sent nothing.
pub proof fn lemma_full_column_changes_nothing(s: MatchState, input: Input)
    requires
        refused(s, input),
    ensures
        next(s, input) == s,
        sent_to(s, input, s.turn) == seq![1u8],
        forall|who: Piece| who != s.turn ==> sent_to(s, input, who) == Seq::<u8>::empty(),
{
}

/// The turn passes to the other player exactly when a piece was placed
/// and the match goes on; after every other input the same player is to
/// move.
pub proof fn lemma_turn_alternates(s: MatchState, input: Input)
    requires
        inv(s),
    ensures
        places(s, input) && next(s, input).status == Status::Active ==> next(s, input).turn
            == s.turn.other() && next(s, input).turn != s.turn,
        !(places(s, input) && next(s, input).status == Status::Active) ==> next(s, input).turn
            == s.turn,
{
}

/// A piece that fills the grid ends the match: with a win where it makes
/// four in a row, and with a draw where it does not. No match goes on
/// with a full grid.
pub proof fn lemma_full_grid_ends_match(s: MatchState, input: Input)
    requires
        inv(s),
        places(s, input),
        grid_full(next(s, input).grid),
    ensures
        next(s, input).status != Status::Active,
        no_four(next(s, input).grid) <==> next(s, input).status == Status::Finished(Reason::Draw),
{
    lemma_next_keeps_inv(s, input);
}

/// A match that is over stays as it is, whatever comes in.
pub proof fn lemma_finished_is_final(s: MatchState, input: Input)
    requires
        s.status != Status::Active,
    ensures
        next(s, input) == s,
        sent_to(s, input, Piece::Red) == Seq::<u8>::empty(),
        sent_to(s, input, Piece::Yellow) == Seq::<u8>::empty(),
{
}

/// The match after the inputs `inputs`, taken one after the other.
pub open spec fn run(s: MatchState, inputs: Seq<Input>) -> MatchState
    decreases inputs.len(),
{
    if inputs.len() == 0 {
        s
    } else {
        next(run(s, inputs.drop_last()), inputs.last())
    }
}

/// How many of the inputs `inputs` placed a piece.
pub open spec fn placed(s: MatchState, inputs: Seq<Input>) -> nat
    decreases inputs.len(),
{
    if inputs.len() == 0 {
        0
    } else {
        placed(s, inputs.drop_last()) + if places(run(s, inputs.drop_last()), inputs.last()) {
            1nat
        } else {
            0nat
        }
    }
}

/// The player to move after `n` pieces were placed, when `first` began.
pub open spec fn mover_after(first: Piece, n: nat) -> Piece {
    if n % 2 == 0 {
        first
    } else {
        first.other()
    }
}

/// Whatever comes in, and however much of it, a match stays as every
/// match must be: in particular no piece ever floats.
pub proof fn lemma_run_keeps_inv(s: MatchState, inputs: Seq<Input>)
    requires
        inv(s),
    ensures
        inv(run(s, inputs)),
    decreases inputs.len(),
{
    if inputs.len() > 0 {
        lemma_run_keeps_inv(s, inputs.drop_last());
        lemma_next_keeps_inv(run(s, inputs.drop_last()), inputs.last());
    }
}

/// The players take turns by placed pieces and by nothing else: as long
/// as the match goes on, the player to move is the one who began if an
/// even number of pieces was placed, and the other one if the number is
/// odd. Inputs that place nothing do not count.
pub proof fn lemma_turns_follow_placements(s: MatchState, inputs: Seq<Input>)
    requires
        inv(s),
        run(s, inputs).status == Status::Active,
    ensures
        s.status == Status::Active,
        run(s, inputs).turn == mover_after(s.turn, placed(s, inputs)),
    decreases inputs.len(),
{
    if inputs.len() > 0 {
        let front = inputs.drop_last();
        lemma_run_keeps_inv(s, front);
        lemma_turns_follow_placements(s, front);
    }
}

/// Every placed piece fills one more cell, so that a match that began on
/// an empty grid has placed as many pieces as its grid holds, 42 at most,
/// and fewer while it goes on: no match goes on for ever by placing pieces.
pub proof fn lemma_placements_are_bounded(inputs: Seq<Input>)
    ensures
        placed(start_state(), inputs) == filled(run(start_state(), inputs).grid),
        placed(start_state(), inputs) <= 42,
        run(start_state(), inputs).status == Status::Active ==> placed(start_state(), inputs) < 42,
    decreases inputs.len(),
{
    let s = start_state();
    lemma_start_inv();
    lemma_run_keeps_inv(s, inputs);
    lemma_filled_bound(run(s, inputs).grid, 42);
    lemma_full_is_all_filled(run(s, inputs).grid);
    if inputs.len() == 0 {
        lemma_filled_empty(42);
    } else {
        let front = inputs.drop_last();
        let before = run(s, front);
        lemma_placements_are_bounded(front);
        lemma_run_keeps_inv(s, front);
        if places(before, inputs.last()) {
            let c = inputs.last()->Byte_0 - 1;
            lemma_landing_row(before.grid, c);
            let l = landing_row(before.grid, c);
            assert(crate::grid::is_landing(before.grid, c, l));
            lemma_filled_after_set(before.grid, l, c, before.turn, 42);
        }
    }
}

/// One match on the server: the grid, the player to move, and whether the
/// match is still going on.
pub struct MatchSession {
    board: Board,
    turn: Piece,
    status: Status,
}

impl View for MatchSession {
    type V = MatchState;

    closed spec fn view(&self) -> MatchState {
        MatchState { grid: self.board@, turn: self.turn, status: self.status }
    }
}

impl MatchSession {
    #[verifier::type_invariant]
    spec fn well_formed(&self) -> bool {
        inv(self@)
    }

    /// A new match: the grid is empty and the first player is to move.
    pub fn new() -> (m: MatchSession)
        ensures
            m@ == start_state(),
            inv(m@),
    {
        proof {
            lemma_start_inv();
        }
        MatchSession { board: Board::new(), turn: Piece::Red, status: Status::Active }
    }

    /// The player to move; after the end, the player who moved last or
    /// was to move when the match ended.
    pub fn turn(&self) -> (p: Piece)
        ensures
            p == self@.turn,
            p != Piece::Empty,
    {
        proof {
            use_type_invariant(self);
        }
        self.turn
    }

    /// Whether the match is going on, or why it is over.
    pub fn status(&self) -> (st: Status)
        ensures
            st == self@.status,
            inv(self@),
    {
        proof {
            use_type_invariant(self);
        }
        self.status
    }

    /// The grid as it stands.
    pub fn board(&self) -> (b: Board)
        ensures
            b@ == self@.grid,
    {
        self.board
    }

    /// What is sent when a turn begins: the notice "your turn" to the
    /// player to move and "opponent's turn" to the other. After the end of
    /// the match nothing is sent and the connections are to be closed.
    pub fn prompt(&self) -> (out: Outgoing)
        ensures
            out.to_first@ == prompt_to(self@, Piece::Red),
            out.to_second@ == prompt_to(self@, Piece::Yellow),
            out.close == (self@.status != Status::Active),
    {
        let mut to_first: Vec<u8> = Vec::new();
        let mut to_second: Vec<u8> = Vec::new();
        match self.status {
            Status::Active => {
                to_first.push(notice_byte(self.turn, Piece::Red));
                to_second.push(notice_byte(self.turn, Piece::Yellow));
                assert(to_first@ =~= notice(self.turn, Piece::Red));
                assert(to_second@ =~= notice(self.turn, Piece::Yellow));
                Outgoing { to_first, to_second, close: false }
            },
            Status::Finished(_) => Outgoing { to_first, to_second, close: true },
        }
    }

    /// Ends the match for `reason` and sends the grid as it stands to both.
    fn finish(&mut self, reason: Reason) -> (out: Outgoing)
        requires
            old(self)@.status == Status::Active,
            reason == Reason::PeerDisconnected || reason == Reason::ProtocolError,
        ensures
            final(self)@ == (MatchState { status: Status::Finished(reason), ..old(self)@ }),
            out.to_first@ == frame_bytes(Frame::BoardUpdate(old(self)@.grid)),
            out.to_second@ == frame_bytes(Frame::BoardUpdate(old(self)@.grid)),
            out.close,
    {
        proof {
            use_type_invariant(&*self);
        }
        self.status = Status::Finished(reason);
        Outgoing {
            to_first: board_frame(&self.board),
            to_second: board_frame(&self.board),
            close: true,
        }
    }

    /// Takes what came of reading one byte from the player to move, and
    /// says what is to be sent to each player and whether the connections
    /// are then closed.
    ///
    /// Byte 0 and a failed read end the match as `PeerDisconnected`, a
    /// byte above 7 as `ProtocolError`. A byte from 1 to 7 drops a piece
    /// of the player to move into that column; a full column changes
    /// nothing and asks the same player again. After a piece is placed
    /// the match ends with a win if the piece is part of four in a row,
    /// with a draw if the grid is full, and else the turn passes on.
    pub fn step(&mut self, input: Input) -> (out: Outgoing)
        ensures
            final(self)@ == next(old(self)@, input),
            inv(final(self)@),
            out.to_first@ == sent_to(old(self)@, input, Piece::Red),
            out.to_second@ == sent_to(old(self)@, input, Piece::Yellow),
            out.close == (final(self)@.status != Status::Active),
    {
        proof {
            use_type_invariant(&*self);
            lemma_next_keeps_inv(self@, input);
        }
        match self.status {
            Status::Finished(_) => {
                return Outgoing { to_first: Vec::new(), to_second: Vec::new(), close: true };
            },
            Status::Active => {},
        }
        match input {
            Input::Failed => self.finish(Reason::PeerDisconnected),
            Input::Byte(b) => match decode_move(b) {
                Err(_) => self.finish(Reason::ProtocolError),
                Ok(Move::Resign) => self.finish(Reason::PeerDisconnected),
                Ok(Move::Column(n)) => {
                    let mover = self.turn;
                    let mut board = self.board;
                    match board.place(n as usize, mover) {
                        None => {
                            let mut to_first: Vec<u8> = Vec::new();
                            let mut to_second: Vec<u8> = Vec::new();
                            if mover == Piece::Red {
                                to_first.push(TAG_YOUR_TURN);
                                assert(to_first@ =~= seq![1u8]);
                            } else {
                                to_second.push(TAG_YOUR_TURN);
                                assert(to_second@ =~= seq![1u8]);
                            }
                            Outgoing { to_first, to_second, close: false }
                        },
                        Some((row, col)) => {
                            let status = if board.check_win(row, col) {
                                Status::Finished(
                                    if mover == Piece::Red {
                                        Reason::WinA
                                    } else {
                                        Reason::WinB
                                    },
                                )
                            } else if board.is_full() {
                                Status::Finished(Reason::Draw)
                            } else {
                                Status::Active
                            };
                            let mut to_first = board_frame(&board);
                            let mut to_second = board_frame(&board);
                            let turn = match status {
                                Status::Active => {
                                    let turn = mover.opponent();
                                    to_first.push(notice_byte(turn, Piece::Red));
                                    to_second.push(notice_byte(turn, Piece::Yellow));
                                    turn
                                },
                                Status::Finished(_) => mover,
                            };
                            *self = MatchSession { board, turn, status };
                            proof {
                                let f = frame_bytes(Frame::BoardUpdate(board@));
                                assert(to_first@ =~= f + prompt_to(self@, Piece::Red));
                                assert(to_second@ =~= f + prompt_to(self@, Piece::Yellow));
                            }
                            Outgoing { to_first, to_second, close: status != Status::Active }
                        },
                    }
                },
            },
        }
    }
}

/// The tag of the turn notice for player `who` when `turn` is to move.
fn notice_byte(turn: Piece, who: Piece) -> (b: u8)
    ensures
        seq![b] == notice(turn, who),
{
    if who == turn {
        TAG_YOUR_TURN
    } else {
        TAG_OPPONENT_TURN
    }
}

} // verus!
