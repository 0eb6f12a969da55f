use connect_four::piece::Piece;
use connect_four::session::{Input, MatchSession, Reason, Status};

fn frame_of(m: &MatchSession) -> Vec<u8> {
    let mut f = vec![0u8];
    f.extend_from_slice(&m.board().to_buffer());
    f
}

#[test]
fn new_match_starts_with_first_player() {
    let m = MatchSession::new();
    assert_eq!(m.turn(), Piece::Red);
    assert_eq!(m.status(), Status::Active);
    assert_eq!(m.board().to_buffer(), [0u8; 42]);
    let out = m.prompt();
    assert_eq!(out.to_first, vec![1u8]);
    assert_eq!(out.to_second, vec![2u8]);
    assert!(!out.close);
}

#[test]
fn placed_piece_sends_grid_and_passes_the_turn() {
    let mut m = MatchSession::new();
    let out = m.step(Input::Byte(4));
    assert_eq!(m.turn(), Piece::Yellow);
    assert_eq!(m.status(), Status::Active);
    assert_eq!(m.board().get(5, 3), Piece::Red);
    let mut first = frame_of(&m);
    let mut second = first.clone();
    first.push(2);
    second.push(1);
    assert_eq!(out.to_first, first);
    assert_eq!(out.to_second, second);
    assert!(!out.close);
    let out = m.step(Input::Byte(4));
    assert_eq!(m.turn(), Piece::Red);
    assert_eq!(m.board().get(4, 3), Piece::Yellow);
    let mut first = frame_of(&m);
    let mut second = first.clone();
    first.push(1);
    second.push(2);
    assert_eq!(out.to_first, first);
    assert_eq!(out.to_second, second);
}

#[test]
fn four_drops_in_column_four_win_for_first_player() {
    let mut m = MatchSession::new();
    let opponent: [u8; 3] = [1, 2, 1];
    for i in 0..3 {
        let out = m.step(Input::Byte(4));
        assert!(!out.close);
        assert_eq!(m.status(), Status::Active);
        assert_eq!(m.turn(), Piece::Yellow);
        let out = m.step(Input::Byte(opponent[i]));
        assert!(!out.close);
        assert_eq!(m.status(), Status::Active);
        assert_eq!(m.turn(), Piece::Red);
    }
    let out = m.step(Input::Byte(4));
    assert_eq!(m.status(), Status::Finished(Reason::WinA));
    assert!(out.close);
    let mut grid = [0u8; 42];
    grid[5 * 7 + 3] = 1;
    grid[4 * 7 + 3] = 1;
    grid[3 * 7 + 3] = 1;
    grid[2 * 7 + 3] = 1;
    grid[5 * 7] = 2;
    grid[4 * 7] = 2;
    grid[5 * 7 + 1] = 2;
    assert_eq!(m.board().to_buffer(), grid);
    let mut frame = vec![0u8];
    frame.extend_from_slice(&grid);
    assert_eq!(out.to_first, frame);
    assert_eq!(out.to_second, frame);
    assert_eq!(m.turn(), Piece::Red);
}

#[test]
fn second_player_can_win() {
    let mut m = MatchSession::new();
    let moves: [u8; 8] = [1, 2, 1, 3, 1, 4, 7, 5];
    let mut last_close = false;
    for b in moves.iter() {
        assert!(!last_close);
        last_close = m.step(Input::Byte(*b)).close;
    }
    assert!(last_close);
    assert_eq!(m.status(), Status::Finished(Reason::WinB));
    assert_eq!(m.turn(), Piece::Yellow);
}

#[test]
fn resign_byte_ends_the_match() {
    let mut m = MatchSession::new();
    let out = m.step(Input::Byte(0));
    assert_eq!(m.status(), Status::Finished(Reason::PeerDisconnected));
    assert!(out.close);
    assert_eq!(m.board().to_buffer(), [0u8; 42]);
    let mut frame = vec![0u8];
    frame.extend_from_slice(&[0u8; 42]);
    assert_eq!(out.to_first, frame);
    assert_eq!(out.to_second, frame);
    assert_eq!(m.turn(), Piece::Red);
}

#[test]
fn failed_read_ends_the_match() {
    let mut m = MatchSession::new();
    m.step(Input::Byte(3));
    let before = m.board().to_buffer();
    let out = m.step(Input::Failed);
    assert_eq!(m.status(), Status::Finished(Reason::PeerDisconnected));
    assert!(out.close);
    assert_eq!(m.board().to_buffer(), before);
    assert_eq!(out.to_first, frame_of(&m));
    assert_eq!(out.to_second, frame_of(&m));
}

#[test]
fn byte_above_seven_is_a_protocol_error() {
    let mut m = MatchSession::new();
    let out = m.step(Input::Byte(8));
    assert_eq!(m.status(), Status::Finished(Reason::ProtocolError));
    assert!(out.close);
    assert_eq!(m.board().to_buffer(), [0u8; 42]);
    let mut other = MatchSession::new();
    other.step(Input::Byte(255));
    assert_eq!(other.status(), Status::Finished(Reason::ProtocolError));
}

#[test]
fn full_column_asks_the_same_player_again() {
    let mut m = MatchSession::new();
    for _ in 0..6 {
        assert!(!m.step(Input::Byte(1)).close);
    }
    assert_eq!(m.turn(), Piece::Red);
    let before = m.board().to_buffer();
    let out = m.step(Input::Byte(1));
    assert_eq!(m.board().to_buffer(), before);
    assert_eq!(m.turn(), Piece::Red);
    assert_eq!(m.status(), Status::Active);
    assert_eq!(out.to_first, vec![1u8]);
    assert_eq!(out.to_second, Vec::<u8>::new());
    assert!(!out.close);
    m.step(Input::Byte(2));
    assert_eq!(m.turn(), Piece::Yellow);
    let before = m.board().to_buffer();
    let out = m.step(Input::Byte(1));
    assert_eq!(m.board().to_buffer(), before);
    assert_eq!(m.turn(), Piece::Yellow);
    assert_eq!(out.to_first, Vec::<u8>::new());
    assert_eq!(out.to_second, vec![1u8]);
}

#[test]
fn turn_alternates_on_placements_only() {
    let mut m = MatchSession::new();
    let moves: [u8; 6] = [1, 1, 1, 1, 1, 1];
    let mut expected = Piece::Red;
    for b in moves.iter() {
        assert_eq!(m.turn(), expected);
        m.step(Input::Byte(*b));
        expected = expected.opponent();
    }
    assert_eq!(m.turn(), Piece::Red);
    m.step(Input::Byte(1));
    assert_eq!(m.turn(), Piece::Red);
    m.step(Input::Byte(1));
    assert_eq!(m.turn(), Piece::Red);
    m.step(Input::Byte(5));
    assert_eq!(m.turn(), Piece::Yellow);
}

#[test]
fn full_grid_without_four_is_a_draw() {
    let moves: [u8; 42] = [
        6, 4, 3, 4, 2, 6, 4, 2, 1, 2, 5, 2, 3, 6, 1, 6, 7, 7, 3, 1, 7, 1, 5, 3, 4, 1, 4, 5, 3, 4,
        3, 7, 1, 5, 2, 2, 6, 5, 5, 6, 7, 7,
    ];
    let mut m = MatchSession::new();
    for (i, b) in moves.iter().enumerate() {
        assert_eq!(m.status(), Status::Active);
        let out = m.step(Input::Byte(*b));
        assert_eq!(out.close, i == 41);
    }
    assert_eq!(m.status(), Status::Finished(Reason::Draw));
    assert!(m.board().is_full());
    let expected: [u8; 42] = [
        1, 2, 1, 2, 1, 2, 2, 2, 1, 1, 1, 2, 1, 1, 2, 2, 2, 1, 2, 2, 2, 2, 2, 1, 1, 2, 2, 1, 1, 2,
        1, 2, 1, 2, 2, 1, 1, 1, 2, 1, 1, 1,
    ];
    assert_eq!(m.board().to_buffer(), expected);
}

#[test]
fn finished_match_ignores_input() {
    let mut m = MatchSession::new();
    m.step(Input::Byte(2));
    m.step(Input::Byte(0));
    let before = m.board().to_buffer();
    let status = m.status();
    let turn = m.turn();
    for input in [Input::Byte(3), Input::Byte(0), Input::Byte(99), Input::Failed] {
        let out = m.step(input);
        assert!(out.close);
        assert!(out.to_first.is_empty());
        assert!(out.to_second.is_empty());
        assert_eq!(m.board().to_buffer(), before);
        assert_eq!(m.status(), status);
        assert_eq!(m.turn(), turn);
    }
    let out = m.prompt();
    assert!(out.close);
    assert!(out.to_first.is_empty());
    assert!(out.to_second.is_empty());
}
