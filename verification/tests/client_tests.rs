use connect_four::client::{Action, ClientMirror, Key, LocalMessage};
use connect_four::codec::ProtocolError;
use connect_four::piece::Piece;

#[test]
fn new_mirror_waits_on_first_column() {
    let m = ClientMirror::new();
    assert!(!m.our_turn());
    assert_eq!(m.cursor(), 1);
    assert_eq!(m.highlighted(), 0);
    assert_eq!(m.board().to_buffer(), [0u8; 42]);
}

#[test]
fn turn_notice_sets_the_flag() {
    let mut m = ClientMirror::new();
    assert_eq!(m.handle(LocalMessage::ChangeTurn(true)), Action::Redraw);
    assert!(m.our_turn());
    assert_eq!(m.highlighted(), 1);
    assert_eq!(m.handle(LocalMessage::ChangeTurn(false)), Action::Redraw);
    assert!(!m.our_turn());
    assert_eq!(m.highlighted(), 0);
}

#[test]
fn arrows_move_only_on_our_turn() {
    let mut m = ClientMirror::new();
    assert_eq!(m.handle(LocalMessage::Event(Key::Right)), Action::Redraw);
    assert_eq!(m.cursor(), 1);
    m.handle(LocalMessage::ChangeTurn(true));
    assert_eq!(m.handle(LocalMessage::Event(Key::Right)), Action::Redraw);
    assert_eq!(m.cursor(), 2);
    assert_eq!(m.handle(LocalMessage::Event(Key::Right)), Action::Redraw);
    assert_eq!(m.cursor(), 3);
    assert_eq!(m.handle(LocalMessage::Event(Key::Left)), Action::Redraw);
    assert_eq!(m.cursor(), 2);
    m.handle(LocalMessage::ChangeTurn(false));
    m.handle(LocalMessage::Event(Key::Left));
    assert_eq!(m.cursor(), 2);
}

#[test]
fn cursor_stays_on_the_grid() {
    let mut m = ClientMirror::new();
    m.handle(LocalMessage::ChangeTurn(true));
    m.handle(LocalMessage::Event(Key::Left));
    assert_eq!(m.cursor(), 1);
    for _ in 0..10 {
        m.handle(LocalMessage::Event(Key::Right));
    }
    assert_eq!(m.cursor(), 7);
    assert_eq!(m.highlighted(), 7);
}

#[test]
fn enter_sends_the_column_on_our_turn_only() {
    let mut m = ClientMirror::new();
    assert_eq!(m.handle(LocalMessage::Event(Key::Enter)), Action::Redraw);
    m.handle(LocalMessage::ChangeTurn(true));
    m.handle(LocalMessage::Event(Key::Right));
    m.handle(LocalMessage::Event(Key::Right));
    assert_eq!(m.handle(LocalMessage::Event(Key::Enter)), Action::Send(3));
    assert_eq!(m.cursor(), 3);
    assert!(m.our_turn());
    assert_eq!(m.board().to_buffer(), [0u8; 42]);
}

#[test]
fn quit_always_leaves() {
    let mut m = ClientMirror::new();
    assert_eq!(m.handle(LocalMessage::Event(Key::Quit)), Action::Quit);
    m.handle(LocalMessage::ChangeTurn(true));
    assert_eq!(m.handle(LocalMessage::Event(Key::Quit)), Action::Quit);
}

#[test]
fn other_keys_only_redraw() {
    let mut m = ClientMirror::new();
    m.handle(LocalMessage::ChangeTurn(true));
    assert_eq!(m.handle(LocalMessage::Event(Key::Other)), Action::Redraw);
    assert_eq!(m.cursor(), 1);
    assert!(m.our_turn());
}

#[test]
fn board_frame_overwrites_the_grid_only() {
    let mut m = ClientMirror::new();
    m.handle(LocalMessage::ChangeTurn(true));
    m.handle(LocalMessage::Event(Key::Right));
    let mut grid = [0u8; 42];
    grid[38] = 1;
    grid[39] = 2;
    assert_eq!(m.receive(0, &grid), Ok(None));
    assert_eq!(m.board().to_buffer(), grid);
    assert_eq!(m.board().get(5, 3), Piece::Red);
    assert_eq!(m.cursor(), 2);
    assert!(m.our_turn());
}

#[test]
fn turn_frames_become_messages() {
    let mut m = ClientMirror::new();
    assert_eq!(m.receive(1, &[]), Ok(Some(LocalMessage::ChangeTurn(true))));
    assert!(!m.our_turn());
    assert_eq!(m.receive(2, &[]), Ok(Some(LocalMessage::ChangeTurn(false))));
}

#[test]
fn bad_frames_change_nothing() {
    let mut m = ClientMirror::new();
    let mut grid = [0u8; 42];
    grid[41] = 2;
    assert_eq!(m.receive(0, &grid), Ok(None));
    assert_eq!(m.receive(9, &[]), Err(ProtocolError::UnknownTag));
    assert_eq!(m.receive(0, &[0u8; 3]), Err(ProtocolError::WrongLength));
    let mut bad = [0u8; 42];
    bad[0] = 7;
    assert_eq!(m.receive(0, &bad), Err(ProtocolError::BadCell));
    assert_eq!(m.board().to_buffer(), grid);
}
