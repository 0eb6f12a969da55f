//! The mathematical model of the grid: six rows of seven cells, row 0 on
//! top, with the gravity drop and the lines of four stated over it.

use vstd::prelude::*;
use crate::piece::Piece;

verus! {

/// A grid as a sequence of rows, each a sequence of cells.
pub type Grid = Seq<Seq<Piece>>;

/// Whether `(r, c)` names a cell of the grid.
pub open spec fn in_grid(r: int, c: int) -> bool {
    0 <= r < 6 && 0 <= c < 7
}

/// Whether `g` has the shape of the grid: six rows of seven cells.
pub open spec fn is_grid(g: Grid) -> bool {
    &&& g.len() == 6
    &&& forall|r: int| 0 <= r < 6 ==> (#[trigger] g[r]).len() == 7
}

/// The cell in row `r` and column `c`.
pub open spec fn cell(g: Grid, r: int, c: int) -> Piece {
    g[r][c]
}

/// The grid with no piece in it.
pub open spec fn empty_grid() -> Grid {
    Seq::new(6, |r: int| Seq::new(7, |c: int| Piece::Empty))
}

/// The grid `g` with the cell `(r, c)` replaced by `p`.
pub open spec fn set_cell(g: Grid, r: int, c: int, p: Piece) -> Grid {
    g.update(r, g[r].update(c, p))
}

/// No piece floats: every cell below an occupied cell of the same column
/// is occupied, so the pieces of a column stand on the bottom row without a
/// gap.
pub open spec fn gravity(g: Grid) -> bool {
    forall|r: int, k: int, c: int|
        0 <= r < k < 6 && 0 <= c < 7 && #[trigger] cell(g, r, c) != Piece::Empty ==> #[trigger] cell(
            g,
            k,
            c,
        ) != Piece::Empty
}

/// Column `c` has no empty cell.
pub open spec fn column_full(g: Grid, c: int) -> bool {
    forall|r: int| 0 <= r < 6 ==> #[trigger] cell(g, r, c) != Piece::Empty
}

/// No column has an empty cell.
pub open spec fn grid_full(g: Grid) -> bool {
    forall|c: int| 0 <= c < 7 ==> #[trigger] column_full(g, c)
}

/// Row `r` is where a piece dropped into column `c` comes to rest: the
/// cell is empty and every cell below it is occupied.
pub open spec fn is_landing(g: Grid, c: int, r: int) -> bool {
    &&& 0 <= r < 6
    &&& cell(g, r, c) == Piece::Empty
    &&& forall|k: int| r < k < 6 ==> #[trigger] cell(g, k, c) != Piece::Empty
}

/// The lowest empty row of column `c` at or above row `from`, or -1 if
/// there is none.
pub open spec fn lowest_empty(g: Grid, c: int, from: int) -> int
    decreases from + 1,
{
    if from < 0 {
        -1
    } else if cell(g, from, c) == Piece::Empty {
        from
    } else {
        lowest_empty(g, c, from - 1)
    }
}

/// The row where a piece dropped into column `c` comes to rest, or -1 if
/// the column is full.
pub open spec fn landing_row(g: Grid, c: int) -> int {
    lowest_empty(g, c, 5)
}

/// The grid after a piece `p` is dropped into column `c`: unchanged where
/// the column is full.
pub open spec fn drop_piece(g: Grid, c: int, p: Piece) -> Grid {
    if landing_row(g, c) < 0 {
        g
    } else {
        set_cell(g, landing_row(g, c), c, p)
    }
}

/// The cell `(r, c)` lies in the grid and holds `p`.
pub open spec fn owned(g: Grid, r: int, c: int, p: Piece) -> bool {
    in_grid(r, c) && cell(g, r, c) == p
}

/// The four cells that start at `(r, c)` and go on by steps of `(dr, dc)`
/// all lie in the grid and hold `p`.
pub open spec fn line_of_four(g: Grid, r: int, c: int, dr: int, dc: int, p: Piece) -> bool {
    &&& owned(g, r, c, p)
    &&& owned(g, r + dr, c + dc, p)
    &&& owned(g, r + 2 * dr, c + 2 * dc, p)
    &&& owned(g, r + 3 * dr, c + 3 * dc, p)
}

/// A line of four cells of `p` starts at `(r, c)` and runs to the right,
/// downwards, or along one of the two diagonals.
pub open spec fn four_from(g: Grid, r: int, c: int, p: Piece) -> bool {
    ||| line_of_four(g, r, c, 0, 1, p)
    ||| line_of_four(g, r, c, 1, 0, p)
    ||| line_of_four(g, r, c, 1, 1, p)
    ||| line_of_four(g, r, c, 1, -1, p)
}

/// Player `p` has four in a row somewhere on the grid.
pub open spec fn has_four(g: Grid, p: Piece) -> bool {
    p != Piece::Empty && exists|r: int, c: int| #[trigger] four_from(g, r, c, p)
}

/// A line of four cells of `p` in direction `(dr, dc)` passes through
/// `(r, c)`.
pub open spec fn line_through(g: Grid, r: int, c: int, dr: int, dc: int, p: Piece) -> bool {
    ||| line_of_four(g, r, c, dr, dc, p)
    ||| line_of_four(g, r - dr, c - dc, dr, dc, p)
    ||| line_of_four(g, r - 2 * dr, c - 2 * dc, dr, dc, p)
    ||| line_of_four(g, r - 3 * dr, c - 3 * dc, dr, dc, p)
}

/// The cell `(r, c)` holds a piece that is part of four in a row of its
/// colour: horizontally, vertically or along a diagonal.
pub open spec fn four_through(g: Grid, r: int, c: int) -> bool {
    let p = cell(g, r, c);
    &&& in_grid(r, c)
    &&& p != Piece::Empty
    &&& (line_through(g, r, c, 0, 1, p) || line_through(g, r, c, 1, 0, p) || line_through(
        g,
        r,
        c,
        1,
        1,
        p,
    ) || line_through(g, r, c, 1, -1, p))
}

/// How many of the three cells that follow `(r, c)` in direction
/// `(dr, dc)` hold `p` without a gap.
pub open spec fn reach(g: Grid, r: int, c: int, dr: int, dc: int, p: Piece) -> int {
    if !owned(g, r + dr, c + dc, p) {
        0
    } else if !owned(g, r + 2 * dr, c + 2 * dc, p) {
        1
    } else if !owned(g, r + 3 * dr, c + 3 * dc, p) {
        2
    } else {
        3
    }
}

/// Reading a cell of a grid in which one cell was replaced.
pub proof fn lemma_set_cell(g: Grid, r: int, c: int, p: Piece)
    requires
        is_grid(g),
        in_grid(r, c),
    ensures
        is_grid(set_cell(g, r, c, p)),
        forall|i: int, j: int|
            in_grid(i, j) ==> #[trigger] cell(set_cell(g, r, c, p), i, j) == (if i == r && j == c {
                p
            } else {
                cell(g, i, j)
            }),
{
    let h = set_cell(g, r, c, p);
    assert forall|i: int| 0 <= i < 6 implies (#[trigger] h[i]).len() == 7 by {
        if i == r {
        } else {
            assert(h[i] == g[i]);
        }
    }
}

/// The empty grid has the grid's shape, holds no piece, and nothing floats
/// in it.
pub proof fn lemma_empty_grid()
    ensures
        is_grid(empty_grid()),
        forall|r: int, c: int| in_grid(r, c) ==> #[trigger] cell(empty_grid(), r, c) == Piece::Empty,
        gravity(empty_grid()),
{
}

/// `lowest_empty` finds the landing row below `from`, if there is one.
pub proof fn lemma_lowest_empty(g: Grid, c: int, from: int)
    requires
        -1 <= from < 6,
    ensures
        -1 <= lowest_empty(g, c, from) <= from,
        lowest_empty(g, c, from) >= 0 ==> cell(g, lowest_empty(g, c, from), c) == Piece::Empty,
        forall|k: int|
            lowest_empty(g, c, from) < k <= from ==> #[trigger] cell(g, k, c) != Piece::Empty,
    decreases from + 1,
{
    if from >= 0 && cell(g, from, c) != Piece::Empty {
        lemma_lowest_empty(g, c, from - 1);
    }
}

/// The landing row of a column is the one row that `is_landing` accepts,
/// and it is -1 exactly where the column is full.
pub proof fn lemma_landing_row(g: Grid, c: int)
    ensures
        -1 <= landing_row(g, c) < 6,
        landing_row(g, c) < 0 <==> column_full(g, c),
        forall|r: int| is_landing(g, c, r) <==> (r >= 0 && r == landing_row(g, c)),
{
    lemma_lowest_empty(g, c, 5);
    let l = landing_row(g, c);
    assert forall|r: int| is_landing(g, c, r) implies (r >= 0 && r == l) by {
        if r < l {
            assert(cell(g, l, c) == Piece::Empty);
        } else if r > l {
            assert(cell(g, r, c) != Piece::Empty);
        }
    }
    if l >= 0 {
        assert(is_landing(g, c, l));
        assert(cell(g, l, c) == Piece::Empty);
    }
}

/// A drop of a player's piece keeps the grid's shape and lets no piece
/// float, whichever column it goes to and whether or not the column is full.
pub proof fn lemma_drop_keeps_gravity(g: Grid, c: int, p: Piece)
    requires
        is_grid(g),
        gravity(g),
        0 <= c < 7,
        p != Piece::Empty,
    ensures
        is_grid(drop_piece(g, c, p)),
        gravity(drop_piece(g, c, p)),
{
    lemma_landing_row(g, c);
    let l = landing_row(g, c);
    if l >= 0 {
        lemma_set_cell(g, l, c, p);
        let h = set_cell(g, l, c, p);
        assert(is_landing(g, c, l));
        assert forall|i: int, k: int, j: int|
            0 <= i < k < 6 && 0 <= j < 7 && #[trigger] cell(h, i, j) != Piece::Empty implies #[trigger] cell(
            h,
            k,
            j,
        ) != Piece::Empty by {
            assert(in_grid(i, j) && in_grid(k, j));
            if j == c && k == l {
                assert(cell(g, i, j) != Piece::Empty);
                assert(cell(g, k, j) != Piece::Empty);
            } else if j == c && i == l {
                assert(cell(g, k, c) != Piece::Empty);
            } else {
                assert(cell(g, i, j) != Piece::Empty);
                assert(cell(g, k, j) != Piece::Empty);
            }
        }
    }
}

/// The grid after the drops `moves`, made one after the other from `g`;
/// each move is a column and the piece dropped into it.
pub open spec fn drop_all(g: Grid, moves: Seq<(int, Piece)>) -> Grid
    decreases moves.len(),
{
    if moves.len() == 0 {
        g
    } else {
        drop_piece(drop_all(g, moves.drop_last()), moves.last().0, moves.last().1)
    }
}

/// Every move of `moves` names a column of the grid and a player's piece.
pub open spec fn valid_moves(moves: Seq<(int, Piece)>) -> bool {
    forall|i: int|
        0 <= i < moves.len() ==> 0 <= (#[trigger] moves[i]).0 < 7 && moves[i].1 != Piece::Empty
}

/// After any sequence of valid drops into a grid where no piece floats,
/// none floats: in every column the occupied cells reach down to the bottom.
pub proof fn lemma_drops_keep_gravity(g: Grid, moves: Seq<(int, Piece)>)
    requires
        is_grid(g),
        gravity(g),
        valid_moves(moves),
    ensures
        is_grid(drop_all(g, moves)),
        gravity(drop_all(g, moves)),
    decreases moves.len(),
{
    if moves.len() > 0 {
        let front = moves.drop_last();
        assert forall|i: int| 0 <= i < front.len() implies 0 <= (#[trigger] front[i]).0 < 7
            && front[i].1 != Piece::Empty by {
            assert(front[i] == moves[i]);
        }
        lemma_drops_keep_gravity(g, front);
        lemma_drop_keeps_gravity(drop_all(g, front), moves.last().0, moves.last().1);
    }
}

/// A drop into a full column changes nothing.
pub proof fn lemma_drop_into_full_column(g: Grid, c: int, p: Piece)
    requires
        column_full(g, c),
    ensures
        drop_piece(g, c, p) == g,
{
    lemma_landing_row(g, c);
}

/// Four in a row after one cell was filled: player `p` has four in a row
/// on the new grid exactly if `p` had it before or a line of four passes
/// through the new piece, and the other player gains nothing.
pub proof fn lemma_four_after_set(g: Grid, r: int, c: int, p: Piece, q: Piece)
    requires
        is_grid(g),
        in_grid(r, c),
        cell(g, r, c) == Piece::Empty,
        p != Piece::Empty,
        q != p,
    ensures
        has_four(set_cell(g, r, c, p), p) <==> has_four(g, p) || four_through(
            set_cell(g, r, c, p),
            r,
            c,
        ),
        has_four(set_cell(g, r, c, p), q) <==> has_four(g, q),
{
    let h = set_cell(g, r, c, p);
    lemma_set_cell(g, r, c, p);
    assert(cell(h, r, c) == p);
    if has_four(h, p) {
        let (r0, c0) = choose|r0: int, c0: int| #[trigger] four_from(h, r0, c0, p);
        lemma_line_after_set(g, r, c, p, r0, c0, 0, 1);
        lemma_line_after_set(g, r, c, p, r0, c0, 1, 0);
        lemma_line_after_set(g, r, c, p, r0, c0, 1, 1);
        lemma_line_after_set(g, r, c, p, r0, c0, 1, -1);
        if !four_through(h, r, c) {
            assert(four_from(g, r0, c0, p));
        }
    }
    if has_four(g, p) {
        let (r0, c0) = choose|r0: int, c0: int| #[trigger] four_from(g, r0, c0, p);
        assert(four_from(h, r0, c0, p));
    }
    if four_through(h, r, c) {
        lemma_through_gives_four(h, r, c, 0, 1, p);
        lemma_through_gives_four(h, r, c, 1, 0, p);
        lemma_through_gives_four(h, r, c, 1, 1, p);
        lemma_through_gives_four(h, r, c, 1, -1, p);
    }
    if q != Piece::Empty {
        if has_four(h, q) {
            let (r0, c0) = choose|r0: int, c0: int| #[trigger] four_from(h, r0, c0, q);
            assert(four_from(g, r0, c0, q));
        }
        if has_four(g, q) {
            let (r0, c0) = choose|r0: int, c0: int| #[trigger] four_from(g, r0, c0, q);
            assert(four_from(h, r0, c0, q));
        }
    }
}

/// A line of four of `p` on the grid with `(r, c)` set to `p` either
/// passes through `(r, c)` or was there before.
proof fn lemma_line_after_set(
    g: Grid,
    r: int,
    c: int,
    p: Piece,
    r0: int,
    c0: int,
    dr: int,
    dc: int,
)
    requires
        is_grid(g),
        in_grid(r, c),
        is_direction(dr, dc),
    ensures
        line_of_four(set_cell(g, r, c, p), r0, c0, dr, dc, p) ==> line_of_four(g, r0, c0, dr, dc, p)
            || line_through(set_cell(g, r, c, p), r, c, dr, dc, p),
{
    lemma_set_cell(g, r, c, p);
    let h = set_cell(g, r, c, p);
    if !line_of_four(h, r0, c0, dr, dc, p) {
    } else if r0 == r && c0 == c {
    } else if r0 + dr == r && c0 + dc == c {
        assert(line_of_four(h, r - dr, c - dc, dr, dc, p));
    } else if r0 + 2 * dr == r && c0 + 2 * dc == c {
        assert(line_of_four(h, r - 2 * dr, c - 2 * dc, dr, dc, p));
    } else if r0 + 3 * dr == r && c0 + 3 * dc == c {
        assert(line_of_four(h, r - 3 * dr, c - 3 * dc, dr, dc, p));
    } else {
        assert(line_of_four(g, r0, c0, dr, dc, p));
    }
}

/// A line of four of a player through a cell is four in a row on the grid.
proof fn lemma_through_gives_four(g: Grid, r: int, c: int, dr: int, dc: int, p: Piece)
    requires
        p != Piece::Empty,
        is_direction(dr, dc),
    ensures
        line_through(g, r, c, dr, dc, p) ==> has_four(g, p),
{
    if line_of_four(g, r, c, dr, dc, p) {
        assert(four_from(g, r, c, p));
    } else if line_of_four(g, r - dr, c - dc, dr, dc, p) {
        assert(four_from(g, r - dr, c - dc, p));
    } else if line_of_four(g, r - 2 * dr, c - 2 * dc, dr, dc, p) {
        assert(four_from(g, r - 2 * dr, c - 2 * dc, p));
    } else if line_of_four(g, r - 3 * dr, c - 3 * dc, dr, dc, p) {
        assert(four_from(g, r - 3 * dr, c - 3 * dc, p));
    }
}

/// Whether `(dr, dc)` is one of the four directions of a line: to the
/// right, downwards, and down along either diagonal.
pub open spec fn is_direction(dr: int, dc: int) -> bool {
    (dr == 0 && dc == 1) || (dr == 1 && (dc == 0 || dc == 1 || dc == -1))
}

/// A line of four is found from each of its cells, in every direction:
/// wherever in the line the last piece went, and whatever lies beyond the
/// line's ends, the search through that piece finds four in a row.
pub proof fn lemma_line_found_from_each_cell(g: Grid, r: int, c: int, dr: int, dc: int, p: Piece)
    requires
        is_direction(dr, dc),
        p != Piece::Empty,
        line_of_four(g, r, c, dr, dc, p),
    ensures
        four_through(g, r, c),
        four_through(g, r + dr, c + dc),
        four_through(g, r + 2 * dr, c + 2 * dc),
        four_through(g, r + 3 * dr, c + 3 * dc),
{
    assert(line_through(g, r, c, dr, dc, p));
    assert(line_through(g, r + dr, c + dc, dr, dc, p)) by {
        assert(line_of_four(g, (r + dr) - dr, (c + dc) - dc, dr, dc, p));
    }
    assert(line_through(g, r + 2 * dr, c + 2 * dc, dr, dc, p)) by {
        assert(line_of_four(g, (r + 2 * dr) - 2 * dr, (c + 2 * dc) - 2 * dc, dr, dc, p));
    }
    assert(line_through(g, r + 3 * dr, c + 3 * dc, dr, dc, p)) by {
        assert(line_of_four(g, (r + 3 * dr) - 3 * dr, (c + 3 * dc) - 3 * dc, dr, dc, p));
    }
}

/// Counting outwards finds the line: a line of four of the cell's own
/// colour passes through `(r, c)` in direction `(dr, dc)` exactly if the
/// cell, the run that follows it and the run that precedes it make four.
pub proof fn lemma_reach_counts_line(g: Grid, r: int, c: int, dr: int, dc: int)
    requires
        in_grid(r, c),
    ensures
        line_through(g, r, c, dr, dc, cell(g, r, c)) <==> 1 + reach(g, r, c, dr, dc, cell(g, r, c))
            + reach(g, r, c, -dr, -dc, cell(g, r, c)) >= 4,
{
    let p = cell(g, r, c);
    let f1 = owned(g, r + dr, c + dc, p);
    let f2 = owned(g, r + 2 * dr, c + 2 * dc, p);
    let f3 = owned(g, r + 3 * dr, c + 3 * dc, p);
    let b1 = owned(g, r - dr, c - dc, p);
    let b2 = owned(g, r - 2 * dr, c - 2 * dc, p);
    let b3 = owned(g, r - 3 * dr, c - 3 * dc, p);
    assert(owned(g, r, c, p));
    assert(line_of_four(g, r, c, dr, dc, p) == (f1 && f2 && f3));
    assert(line_of_four(g, r - dr, c - dc, dr, dc, p) == (b1 && f1 && f2)) by {
        assert(r - dr + dr == r && c - dc + dc == c);
        assert(r - dr + 2 * dr == r + dr && c - dc + 2 * dc == c + dc);
        assert(r - dr + 3 * dr == r + 2 * dr && c - dc + 3 * dc == c + 2 * dc);
    }
    assert(line_of_four(g, r - 2 * dr, c - 2 * dc, dr, dc, p) == (b2 && b1 && f1)) by {
        assert(r - 2 * dr + dr == r - dr && c - 2 * dc + dc == c - dc);
        assert(r - 2 * dr + 2 * dr == r && c - 2 * dc + 2 * dc == c);
        assert(r - 2 * dr + 3 * dr == r + dr && c - 2 * dc + 3 * dc == c + dc);
    }
    assert(line_of_four(g, r - 3 * dr, c - 3 * dc, dr, dc, p) == (b3 && b2 && b1)) by {
        assert(r - 3 * dr + dr == r - 2 * dr && c - 3 * dc + dc == c - 2 * dc);
        assert(r - 3 * dr + 2 * dr == r - dr && c - 3 * dc + 2 * dc == c - dc);
        assert(r - 3 * dr + 3 * dr == r && c - 3 * dc + 3 * dc == c);
    }
    assert(reach(g, r, c, dr, dc, p) == (if !f1 {
        0int
    } else if !f2 {
        1
    } else if !f3 {
        2
    } else {
        3
    }));
    assert(reach(g, r, c, -dr, -dc, p) == (if !b1 {
        0int
    } else if !b2 {
        1
    } else if !b3 {
        2
    } else {
        3
    })) by {
        assert(r + (-dr) == r - dr && c + (-dc) == c - dc);
        assert(r + 2 * (-dr) == r - 2 * dr && c + 2 * (-dc) == c - 2 * dc);
        assert(r + 3 * (-dr) == r - 3 * dr && c + 3 * (-dc) == c - 3 * dc);
    }
}

/// How many of the first `k` cells, counted row by row from the top left,
/// hold a piece.
pub open spec fn filled_upto(g: Grid, k: int) -> nat
    decreases k,
{
    if k <= 0 {
        0
    } else {
        filled_upto(g, k - 1) + if cell(g, (k - 1) / 7, (k - 1) % 7) != Piece::Empty {
            1nat
        } else {
            0nat
        }
    }
}

/// How many cells of the grid hold a piece.
pub open spec fn filled(g: Grid) -> nat {
    filled_upto(g, 42)
}

/// No more cells are filled than there are.
pub proof fn lemma_filled_bound(g: Grid, k: int)
    requires
        0 <= k,
    ensures
        filled_upto(g, k) <= k,
    decreases k,
{
    if k > 0 {
        lemma_filled_bound(g, k - 1);
    }
}

/// The empty grid holds no piece.
pub proof fn lemma_filled_empty(k: int)
    requires
        0 <= k <= 42,
    ensures
        filled_upto(empty_grid(), k) == 0,
    decreases k,
{
    if k > 0 {
        lemma_filled_empty(k - 1);
        lemma_empty_grid();
        assert(in_grid((k - 1) / 7, (k - 1) % 7));
    }
}

/// A piece set into an empty cell is one more filled cell.
pub proof fn lemma_filled_after_set(g: Grid, r: int, c: int, p: Piece, k: int)
    requires
        is_grid(g),
        in_grid(r, c),
        cell(g, r, c) == Piece::Empty,
        p != Piece::Empty,
        0 <= k <= 42,
    ensures
        filled_upto(set_cell(g, r, c, p), k) == filled_upto(g, k) + if r * 7 + c < k {
            1nat
        } else {
            0nat
        },
    decreases k,
{
    if k > 0 {
        lemma_filled_after_set(g, r, c, p, k - 1);
        lemma_set_cell(g, r, c, p);
        let i = k - 1;
        assert(in_grid(i / 7, i % 7));
        assert((i / 7 == r && i % 7 == c) <==> i == r * 7 + c);
    }
}

/// A grid on which every cell counts as filled is full.
pub proof fn lemma_all_filled_is_full(g: Grid, k: int)
    requires
        0 <= k <= 42,
        filled_upto(g, k) == k,
    ensures
        forall|i: int| 0 <= i < k ==> #[trigger] cell(g, i / 7, i % 7) != Piece::Empty,
    decreases k,
{
    if k > 0 {
        lemma_filled_bound(g, k - 1);
        lemma_all_filled_is_full(g, k - 1);
    }
}

/// A grid is full exactly if all its 42 cells are filled.
pub proof fn lemma_full_is_all_filled(g: Grid)
    ensures
        grid_full(g) <==> filled(g) == 42,
{
    if filled(g) == 42 {
        lemma_all_filled_is_full(g, 42);
        assert forall|c: int| 0 <= c < 7 implies #[trigger] column_full(g, c) by {
            assert forall|r: int| 0 <= r < 6 implies #[trigger] cell(g, r, c) != Piece::Empty by {
                let i = r * 7 + c;
                assert(i / 7 == r && i % 7 == c);
                assert(cell(g, i / 7, i % 7) != Piece::Empty);
            }
        }
    }
    if grid_full(g) {
        lemma_full_counts(g, 42);
    }
}

/// On a full grid every cell counts as filled.
proof fn lemma_full_counts(g: Grid, k: int)
    requires
        grid_full(g),
        0 <= k <= 42,
    ensures
        filled_upto(g, k) == k,
    decreases k,
{
    if k > 0 {
        lemma_full_counts(g, k - 1);
        let i = k - 1;
        assert(column_full(g, i % 7));
        assert(cell(g, i / 7, i % 7) != Piece::Empty);
    }
}

} // verus!
