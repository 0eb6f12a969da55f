use connect_four::board::Board;
use connect_four::piece::Piece;
use connect_four::render::{piece_bytes, render_board, render_screen};

#[test]
fn empty_cell_is_a_blank() {
    assert_eq!(piece_bytes(Piece::Empty), b" ".to_vec());
}

#[test]
fn red_piece_is_a_blank_on_light_red() {
    assert_eq!(piece_bytes(Piece::Red), b"\x1b[48;5;9m \x1b[49m".to_vec());
}

#[test]
fn yellow_piece_is_a_blank_on_light_yellow() {
    assert_eq!(piece_bytes(Piece::Yellow), b"\x1b[48;5;11m \x1b[49m".to_vec());
}

#[test]
fn empty_board_without_cursor() {
    let mut expected: Vec<u8> = Vec::new();
    for n in 1..8 {
        expected.extend_from_slice(format!("|\x1b[27m {} \x1b[27m", n).as_bytes());
    }
    expected.extend_from_slice(b"|\r\n");
    for _ in 1..8 {
        expected.extend_from_slice(b"|\x1b[27m---\x1b[27m");
    }
    expected.extend_from_slice(b"|\r\n");
    for _ in 0..6 {
        expected.extend_from_slice(b"|   |   |   |   |   |   |   |\r\n");
        expected.extend_from_slice(b"|---|---|---|---|---|---|---|\r\n");
    }
    assert_eq!(render_board(&Board::new(), 0), expected);
}

#[test]
fn cursor_column_is_inverted() {
    let text = render_board(&Board::new(), 3);
    let head = b"|\x1b[27m 1 \x1b[27m|\x1b[27m 2 \x1b[27m|\x1b[7m 3 \x1b[27m|\x1b[27m 4 \x1b[27m";
    assert_eq!(&text[..head.len()], &head[..]);
    let other = render_board(&Board::new(), 1);
    let head = b"|\x1b[7m 1 \x1b[27m|\x1b[27m 2 \x1b[27m";
    assert_eq!(&other[..head.len()], &head[..]);
    assert_eq!(text.len(), other.len());
    assert_eq!(text.len(), render_board(&Board::new(), 0).len() - 2);
}

#[test]
fn pieces_show_in_their_rows() {
    let mut b = Board::new();
    b.place(1, Piece::Red);
    b.place(1, Piece::Yellow);
    b.place(7, Piece::Yellow);
    let text = render_board(&b, 0);
    let bottom =
        b"|---|---|---|---|---|---|---|\r\n| \x1b[48;5;9m \x1b[49m |   |   |   |   |   | \x1b[48;5;11m \x1b[49m |\r\n|---|---|---|---|---|---|---|\r\n";
    assert_eq!(&text[text.len() - bottom.len()..], &bottom[..]);
    let above = b"| \x1b[48;5;11m \x1b[49m |   |   |   |   |   |   |\r\n";
    let end = text.len() - bottom.len();
    assert_eq!(&text[end - above.len()..end], &above[..]);
}

#[test]
fn screen_is_cleared_before_the_board() {
    let mut b = Board::new();
    b.place(5, Piece::Red);
    let screen = render_screen(&b, 5);
    assert_eq!(&screen[..4], b"\x1b[2J");
    assert_eq!(&screen[4..], &render_board(&b, 5)[..]);
}
