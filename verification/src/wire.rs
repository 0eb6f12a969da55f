//! The wire form of a grid: 42 bytes, row by row from the top, one byte
//! per cell.

use vstd::prelude::*;
use crate::grid::{cell, in_grid, is_grid, Grid};
use crate::piece::{lemma_code_round_trip, lemma_piece_round_trip, piece_of};

verus! {

/// The 42 bytes that stand for the grid `g`.
pub open spec fn encode_grid(g: Grid) -> Seq<u8> {
    Seq::new(42, |i: int| cell(g, i / 7, i % 7).code())
}

/// Whether `s` is the wire form of some grid: 42 bytes, none above 2.
pub open spec fn valid_wire(s: Seq<u8>) -> bool {
    &&& s.len() == 42
    &&& forall|i: int| 0 <= i < 42 ==> #[trigger] s[i] <= 2
}

/// The grid that the 42 bytes `s` stand for.
pub open spec fn decode_grid(s: Seq<u8>) -> Grid {
    Seq::new(6, |r: int| Seq::new(7, |c: int| piece_of(s[r * 7 + c])))
}

/// A grid that is written to the wire and read back is the same grid.
pub proof fn lemma_grid_round_trip(g: Grid)
    requires
        is_grid(g),
    ensures
        valid_wire(encode_grid(g)),
        decode_grid(encode_grid(g)) == g,
{
    let s = encode_grid(g);
    assert forall|i: int| 0 <= i < 42 implies #[trigger] s[i] <= 2 by {
        lemma_piece_round_trip(cell(g, i / 7, i % 7));
    }
    let h = decode_grid(s);
    assert forall|r: int| 0 <= r < 6 implies #[trigger] h[r] == g[r] by {
        assert forall|c: int| 0 <= c < 7 implies h[r][c] == g[r][c] by {
            let i = r * 7 + c;
            assert(i / 7 == r && i % 7 == c);
            lemma_piece_round_trip(cell(g, r, c));
        }
        assert(h[r] =~= g[r]);
    }
    assert(h =~= g);
}

/// Valid wire bytes that are read as a grid and written back are the same
/// bytes, and what is read has the grid's shape.
pub proof fn lemma_wire_round_trip(s: Seq<u8>)
    requires
        valid_wire(s),
    ensures
        is_grid(decode_grid(s)),
        encode_grid(decode_grid(s)) == s,
{
    let g = decode_grid(s);
    let t = encode_grid(g);
    assert forall|i: int| 0 <= i < 42 implies #[trigger] t[i] == s[i] by {
        let r = i / 7;
        let c = i % 7;
        assert(r * 7 + c == i);
        assert(in_grid(r, c));
        lemma_code_round_trip(s[i]);
    }
    assert(t =~= s);
}

/// Reading wire bytes gives a grid of the right shape whatever they hold.
pub proof fn lemma_decode_is_grid(s: Seq<u8>)
    ensures
        is_grid(decode_grid(s)),
        forall|r: int, c: int|
            in_grid(r, c) ==> #[trigger] cell(decode_grid(s), r, c) == piece_of(s[r * 7 + c]),
{
}

} // verus!
