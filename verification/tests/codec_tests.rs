use connect_four::board::Board;
use connect_four::codec::{
    board_frame, decode_frame, decode_move, encode_frame, encode_move, payload_len, Move,
    ProtocolError, ServerFrame,
};
use connect_four::piece::Piece;

#[test]
fn turn_notices_are_one_byte() {
    assert_eq!(encode_frame(&ServerFrame::YourTurn), vec![1u8]);
    assert_eq!(encode_frame(&ServerFrame::OpponentTurn), vec![2u8]);
}

#[test]
fn board_frame_is_tag_and_grid() {
    let mut b = Board::new();
    b.place(4, Piece::Red);
    b.place(4, Piece::Yellow);
    let frame = board_frame(&b);
    assert_eq!(frame.len(), 43);
    assert_eq!(frame[0], 0);
    assert_eq!(&frame[1..], &b.to_buffer()[..]);
    assert_eq!(frame[1 + 5 * 7 + 3], 1);
    assert_eq!(frame[1 + 4 * 7 + 3], 2);
    assert_eq!(encode_frame(&ServerFrame::BoardUpdate(b)), frame);
}

#[test]
fn payload_len_by_tag() {
    assert_eq!(payload_len(0), Ok(42));
    assert_eq!(payload_len(1), Ok(0));
    assert_eq!(payload_len(2), Ok(0));
    assert_eq!(payload_len(3), Err(ProtocolError::UnknownTag));
    assert_eq!(payload_len(255), Err(ProtocolError::UnknownTag));
}

#[test]
fn decode_turn_notices() {
    assert!(matches!(decode_frame(1, &[]), Ok(ServerFrame::YourTurn)));
    assert!(matches!(decode_frame(2, &[]), Ok(ServerFrame::OpponentTurn)));
}

#[test]
fn decode_board_frame_round_trip() {
    let mut b = Board::new();
    b.place(1, Piece::Red);
    b.place(2, Piece::Yellow);
    b.place(1, Piece::Red);
    let frame = encode_frame(&ServerFrame::BoardUpdate(b));
    match decode_frame(frame[0], &frame[1..]) {
        Ok(ServerFrame::BoardUpdate(back)) => {
            assert_eq!(back.to_buffer(), b.to_buffer());
            assert_eq!(back.get(5, 0), Piece::Red);
            assert_eq!(back.get(4, 0), Piece::Red);
            assert_eq!(back.get(5, 1), Piece::Yellow);
        }
        _ => panic!("a board frame must decode to a board"),
    }
}

#[test]
fn decode_unknown_tag() {
    assert!(matches!(decode_frame(3, &[]), Err(ProtocolError::UnknownTag)));
    assert!(matches!(decode_frame(77, &[0u8; 42]), Err(ProtocolError::UnknownTag)));
}

#[test]
fn decode_wrong_length() {
    assert!(matches!(decode_frame(1, &[0u8]), Err(ProtocolError::WrongLength)));
    assert!(matches!(decode_frame(2, &[0u8; 42]), Err(ProtocolError::WrongLength)));
    assert!(matches!(decode_frame(0, &[0u8; 41]), Err(ProtocolError::WrongLength)));
    assert!(matches!(decode_frame(0, &[]), Err(ProtocolError::WrongLength)));
}

#[test]
fn decode_bad_cell() {
    let mut grid = [0u8; 42];
    grid[5] = 3;
    assert!(matches!(decode_frame(0, &grid), Err(ProtocolError::BadCell)));
}

#[test]
fn decode_moves() {
    assert_eq!(decode_move(0), Ok(Move::Resign));
    for n in 1u8..8 {
        assert_eq!(decode_move(n), Ok(Move::Column(n)));
    }
    assert_eq!(decode_move(8), Err(ProtocolError::BadColumn));
    assert_eq!(decode_move(255), Err(ProtocolError::BadColumn));
}

#[test]
fn encode_moves() {
    assert_eq!(encode_move(Move::Resign), 0);
    assert_eq!(encode_move(Move::Column(1)), 1);
    assert_eq!(encode_move(Move::Column(7)), 7);
    for b in 0u8..8 {
        assert_eq!(encode_move(decode_move(b).unwrap()), b);
    }
}
