//! The text of the player's screen: the numbered columns with the cursor
//! shown inverted, and the grid below them with a coloured cell for each
//! piece. The text is made of bytes ready to be written to a terminal.

use vstd::prelude::*;
use crate::board::Board;
use crate::grid::{cell, Grid};
use crate::piece::Piece;

verus! {

/// The escape sequence that turns inverted colours on: `ESC [ 7 m`.
pub open spec fn invert_on() -> Seq<u8> {
    seq![27u8, 91u8, 55u8, 109u8]
}

/// The escape sequence that turns inverted colours off: `ESC [ 2 7 m`.
pub open spec fn invert_off() -> Seq<u8> {
    seq![27u8, 91u8, 50u8, 55u8, 109u8]
}

/// The escape sequence for a light red background: `ESC [ 4 8 ; 5 ; 9 m`.
pub open spec fn red_background() -> Seq<u8> {
    seq![27u8, 91u8, 52u8, 56u8, 59u8, 53u8, 59u8, 57u8, 109u8]
}

/// The escape sequence for a light yellow background:
/// `ESC [ 4 8 ; 5 ; 1 1 m`.
pub open spec fn yellow_background() -> Seq<u8> {
    seq![27u8, 91u8, 52u8, 56u8, 59u8, 53u8, 59u8, 49u8, 49u8, 109u8]
}

/// The escape sequence for the default background: `ESC [ 4 9 m`.
pub open spec fn default_background() -> Seq<u8> {
    seq![27u8, 91u8, 52u8, 57u8, 109u8]
}

/// The escape sequence that clears the screen: `ESC [ 2 J`.
pub open spec fn clear_screen() -> Seq<u8> {
    seq![27u8, 91u8, 50u8, 74u8]
}

/// The inversion that column `n` is drawn with when the cursor is on
/// column `num`.
pub open spec fn mark(n: int, num: int) -> Seq<u8> {
    if n == num {
        invert_on()
    } else {
        invert_off()
    }
}

/// The label of column `n`: a bar, then the column's digit between two
/// blanks, inverted where the cursor is.
pub open spec fn label_cell(n: int, num: int) -> Seq<u8> {
    seq![124u8] + mark(n, num) + seq![32u8, (48 + n) as u8, 32u8] + invert_off()
}

/// The piece of rule under the label of column `n`.
pub open spec fn rule_cell(n: int, num: int) -> Seq<u8> {
    seq![124u8] + mark(n, num) + seq![45u8, 45u8, 45u8] + invert_off()
}

/// The labels of the columns 1 to `k`.
pub open spec fn labels(k: int, num: int) -> Seq<u8>
    decreases k,
{
    if k <= 0 {
        Seq::<u8>::empty()
    } else {
        labels(k - 1, num) + label_cell(k, num)
    }
}

/// The rule under the labels of the columns 1 to `k`.
pub open spec fn rules(k: int, num: int) -> Seq<u8>
    decreases k,
{
    if k <= 0 {
        Seq::<u8>::empty()
    } else {
        rules(k - 1, num) + rule_cell(k, num)
    }
}

/// The end of every line: a bar, carriage return, line feed.
pub open spec fn line_end() -> Seq<u8> {
    seq![124u8, 13u8, 10u8]
}

/// A piece on the screen: a blank, on the background of its player.
pub open spec fn piece_text(p: Piece) -> Seq<u8> {
    match p {
        Piece::Empty => seq![32u8],
        Piece::Red => red_background() + seq![32u8] + default_background(),
        Piece::Yellow => yellow_background() + seq![32u8] + default_background(),
    }
}

/// A cell on the screen: a bar and the piece between two blanks.
pub open spec fn cell_text(p: Piece) -> Seq<u8> {
    seq![124u8, 32u8] + piece_text(p) + seq![32u8]
}

/// The first `k` cells of row `r`.
pub open spec fn row_cells(g: Grid, r: int, k: int) -> Seq<u8>
    decreases k,
{
    if k <= 0 {
        Seq::<u8>::empty()
    } else {
        row_cells(g, r, k - 1) + cell_text(cell(g, r, k - 1))
    }
}

/// A rule of `k` columns without inversion.
pub open spec fn bars(k: int) -> Seq<u8>
    decreases k,
{
    if k <= 0 {
        Seq::<u8>::empty()
    } else {
        bars(k - 1) + seq![124u8, 45u8, 45u8, 45u8]
    }
}

/// Row `r` on the screen: its seven cells, and the rule below them.
pub open spec fn row_text(g: Grid, r: int) -> Seq<u8> {
    row_cells(g, r, 7) + line_end() + bars(7) + line_end()
}

/// The first `k` rows on the screen.
pub open spec fn rows_text(g: Grid, k: int) -> Seq<u8>
    decreases k,
{
    if k <= 0 {
        Seq::<u8>::empty()
    } else {
        rows_text(g, k - 1) + row_text(g, k - 1)
    }
}

/// The grid on the screen, with the cursor on column `num`: the line of
/// labels, the rule under it, and the six rows from the top.
pub open spec fn board_text(g: Grid, num: int) -> Seq<u8> {
    labels(7, num) + line_end() + rules(7, num) + line_end() + rows_text(g, 6)
}

/// The whole screen: it is cleared, then the grid is drawn.
pub open spec fn screen_text(g: Grid, num: int) -> Seq<u8> {
    clear_screen() + board_text(g, num)
}

/// `termion::style::Invert` as bytes: the sequence that turns inverted
/// colours on. The crate defines it as the control sequence introducer
/// followed by `7m`.
#[verifier::external_body]
fn invert_bytes() -> (s: &'static [u8])
    ensures
        s@ == invert_on(),
{
    termion::style::Invert.as_ref()
}

/// `termion::style::NoInvert` as bytes: the sequence that turns inverted
/// colours off. The crate defines it as the control sequence introducer
/// followed by `27m`.
#[verifier::external_body]
fn no_invert_bytes() -> (s: &'static [u8])
    ensures
        s@ == invert_off(),
{
    termion::style::NoInvert.as_ref()
}

/// `termion::clear::All` as bytes: the sequence that clears the screen.
/// The crate defines it as the control sequence introducer followed by
/// `2J`.
#[verifier::external_body]
fn clear_all_bytes() -> (s: &'static [u8])
    ensures
        s@ == clear_screen(),
{
    termion::clear::All.as_ref()
}

/// `termion::color::LightRed::bg_str`: the background sequence of colour
/// 9, which the crate defines as the introducer followed by `48;5;9m`.
#[verifier::external_body]
fn light_red_bytes() -> (s: &'static [u8])
    ensures
        s@ == red_background(),
{
    termion::color::LightRed.bg_str().as_bytes()
}

/// `termion::color::LightYellow::bg_str`: the background sequence of
/// colour 11, which the crate defines as the introducer followed by
/// `48;5;11m`.
#[verifier::external_body]
fn light_yellow_bytes() -> (s: &'static [u8])
    ensures
        s@ == yellow_background(),
{
    termion::color::LightYellow.bg_str().as_bytes()
}

/// `termion::color::Reset::bg_str`: the sequence that sets the default
/// background, which the crate defines as the introducer followed by
/// `49m`.
#[verifier::external_body]
fn reset_background_bytes() -> (s: &'static [u8])
    ensures
        s@ == default_background(),
{
    termion::color::Reset.bg_str().as_bytes()
}

/// Appends the bytes `s` to `out`.
fn append(out: &mut Vec<u8>, s: &[u8])
    ensures
        final(out)@ == old(out)@ + s@,
{
    let mut i: usize = 0;
    while i < s.len()
        invariant
            i <= s@.len(),
            out@ == old(out)@ + s@.take(i as int),
        decreases s@.len() - i,
    {
        out.push(s[i]);
        assert(s@.take(i + 1) =~= s@.take(i as int).push(s@[i as int]));
        assert(out@ =~= old(out)@ + s@.take(i + 1));
        i = i + 1;
    }
    assert(s@.take(i as int) =~= s@);
}

/// Appends the inversion for column `n` when the cursor is on `num`.
fn append_mark(out: &mut Vec<u8>, n: usize, num: usize)
    ensures
        final(out)@ == old(out)@ + mark(n as int, num as int),
{
    if n == num {
        append(out, invert_bytes());
    } else {
        append(out, no_invert_bytes());
    }
}

/// Appends the line of column labels, without its end.
fn append_labels(out: &mut Vec<u8>, num: usize)
    ensures
        final(out)@ == old(out)@ + labels(7, num as int),
{
    let mut n: usize = 1;
    assert(out@ =~= old(out)@ + labels(0, num as int));
    while n <= 7
        invariant
            1 <= n <= 8,
            out@ == old(out)@ + labels(n - 1, num as int),
        decreases 8 - n,
    {
        let ghost before = out@;
        out.push(124);
        append_mark(out, n, num);
        out.push(32);
        out.push(48 + n as u8);
        out.push(32);
        append(out, no_invert_bytes());
        assert(out@ =~= before + label_cell(n as int, num as int));
        assert(out@ =~= old(out)@ + labels(n as int, num as int));
        n = n + 1;
    }
}

/// Appends the rule under the column labels, without its end.
fn append_rules(out: &mut Vec<u8>, num: usize)
    ensures
        final(out)@ == old(out)@ + rules(7, num as int),
{
    let mut n: usize = 1;
    assert(out@ =~= old(out)@ + rules(0, num as int));
    while n <= 7
        invariant
            1 <= n <= 8,
            out@ == old(out)@ + rules(n - 1, num as int),
        decreases 8 - n,
    {
        let ghost before = out@;
        out.push(124);
        append_mark(out, n, num);
        out.push(45);
        out.push(45);
        out.push(45);
        append(out, no_invert_bytes());
        assert(out@ =~= before + rule_cell(n as int, num as int));
        assert(out@ =~= old(out)@ + rules(n as int, num as int));
        n = n + 1;
    }
}

/// Appends the end of a line.
fn append_line_end(out: &mut Vec<u8>)
    ensures
        final(out)@ == old(out)@ + line_end(),
{
    out.push(124);
    out.push(13);
    out.push(10);
    assert(out@ =~= old(out)@ + line_end());
}

/// Appends a rule of seven columns without inversion, without its end.
fn append_bars(out: &mut Vec<u8>)
    ensures
        final(out)@ == old(out)@ + bars(7),
{
    let mut n: usize = 0;
    assert(out@ =~= old(out)@ + bars(0));
    while n < 7
        invariant
            n <= 7,
            out@ == old(out)@ + bars(n as int),
        decreases 7 - n,
    {
        out.push(124);
        out.push(45);
        out.push(45);
        out.push(45);
        assert(out@ =~= old(out)@ + bars(n + 1));
        n = n + 1;
    }
}

/// The bytes that show the piece `p`: a blank, on the background of its
/// player.
pub fn piece_bytes(p: Piece) -> (out: Vec<u8>)
    ensures
        out@ == piece_text(p),
{
    let mut out: Vec<u8> = Vec::new();
    match p {
        Piece::Empty => {
            out.push(32);
        },
        Piece::Red => {
            append(&mut out, light_red_bytes());
            out.push(32);
            append(&mut out, reset_background_bytes());
        },
        Piece::Yellow => {
            append(&mut out, light_yellow_bytes());
            out.push(32);
            append(&mut out, reset_background_bytes());
        },
    }
    assert(out@ =~= piece_text(p));
    out
}

/// Appends row `r` of the board with the rule below it.
fn append_row(out: &mut Vec<u8>, board: &Board, r: usize)
    requires
        r < 6,
    ensures
        final(out)@ == old(out)@ + row_text(board@, r as int),
{
    let mut c: usize = 0;
    assert(out@ =~= old(out)@ + row_cells(board@, r as int, 0));
    while c < 7
        invariant
            r < 6,
            c <= 7,
            out@ == old(out)@ + row_cells(board@, r as int, c as int),
        decreases 7 - c,
    {
        let ghost before = out@;
        let piece = piece_bytes(board.get(r, c));
        out.push(124);
        out.push(32);
        append(out, piece.as_slice());
        out.push(32);
        assert(out@ =~= before + cell_text(cell(board@, r as int, c as int)));
        assert(out@ =~= old(out)@ + row_cells(board@, r as int, c + 1));
        c = c + 1;
    }
    let ghost cells = out@;
    append_line_end(out);
    append_bars(out);
    append_line_end(out);
    assert(out@ =~= cells + line_end() + bars(7) + line_end());
    assert(out@ =~= old(out)@ + row_text(board@, r as int));
}

/// The bytes that draw the board with the cursor on column `num`, counted
/// from 1; with `num` at 0, or above 7, no column is shown as selected.
pub fn render_board(board: &Board, num: usize) -> (out: Vec<u8>)
    ensures
        out@ == board_text(board@, num as int),
{
    let mut out: Vec<u8> = Vec::new();
    append_labels(&mut out, num);
    append_line_end(&mut out);
    append_rules(&mut out, num);
    append_line_end(&mut out);
    let ghost head = out@;
    assert(head =~= labels(7, num as int) + line_end() + rules(7, num as int) + line_end());
    let mut r: usize = 0;
    assert(out@ =~= head + rows_text(board@, 0));
    while r < 6
        invariant
            r <= 6,
            out@ == head + rows_text(board@, r as int),
        decreases 6 - r,
    {
        append_row(&mut out, board, r);
        assert(out@ =~= head + rows_text(board@, r + 1));
        r = r + 1;
    }
    out
}

/// The bytes that clear the screen and draw the board with the cursor on
/// column `num`.
pub fn render_screen(board: &Board, num: usize) -> (out: Vec<u8>)
    ensures
        out@ == screen_text(board@, num as int),
{
    let mut out: Vec<u8> = Vec::new();
    append(&mut out, clear_all_bytes());
    let body = render_board(board, num);
    append(&mut out, body.as_slice());
    assert(out@ =~= screen_text(board@, num as int));
    out
}

} // verus!
