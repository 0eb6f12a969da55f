//! The grid as the game holds it: cells in a fixed array, with the drop of
//! a piece, the search for four in a row and the wire form.

use vstd::prelude::*;
use crate::grid::{
    cell, column_full, drop_piece, empty_grid, four_through, gravity, grid_full, in_grid, is_grid,
    is_landing, landing_row, lemma_drop_keeps_gravity, lemma_landing_row, lemma_reach_counts_line,
    lemma_set_cell, owned, reach, set_cell, Grid,
};
use crate::piece::{piece_of, Piece};
use crate::wire::{decode_grid, encode_grid, valid_wire};

verus! {

/// A grid of six rows and seven columns. Row 0 is the top row, column 0 the
/// leftmost column.
#[derive(Clone, Copy)]
pub struct Board {
    data: [[Piece; 7]; 6],
}

impl View for Board {
    type V = Grid;

    closed spec fn view(&self) -> Grid {
        rows_of(self.data)
    }
}

/// The rows of an array of cells, as a grid.
#[verifier::opaque]
spec fn rows_of(data: [[Piece; 7]; 6]) -> Grid {
    Seq::new(6, |r: int| Seq::new(7, |c: int| data[r][c]))
}

/// The rows have the grid's shape and hold the array's cells.
proof fn lemma_rows_of(data: [[Piece; 7]; 6])
    ensures
        is_grid(rows_of(data)),
        forall|r: int, c: int| in_grid(r, c) ==> #[trigger] cell(rows_of(data), r, c) == data[r][c],
{
    reveal(rows_of);
}

/// Grids with the same cells are the same grid.
proof fn lemma_same_cells(g: Grid, h: Grid)
    requires
        is_grid(g),
        is_grid(h),
        forall|r: int, c: int| in_grid(r, c) ==> #[trigger] cell(g, r, c) == cell(h, r, c),
    ensures
        g == h,
{
    assert forall|r: int| 0 <= r < 6 implies #[trigger] g[r] == h[r] by {
        assert forall|c: int| 0 <= c < 7 implies g[r][c] == h[r][c] by {
            assert(in_grid(r, c));
            assert(cell(g, r, c) == cell(h, r, c));
        }
        assert(g[r] =~= h[r]);
    }
    assert(g =~= h);
}

impl Board {
    /// The view of a board always has the grid's shape.
    pub proof fn lemma_view(&self)
        ensures
            is_grid(self@),
    {
        lemma_rows_of(self.data);
    }

    /// The view reads the array cell by cell.
    proof fn lemma_cells(&self)
        ensures
            is_grid(self@),
            forall|r: int, c: int|
                in_grid(r, c) ==> #[trigger] cell(self@, r, c) == self.data[r][c],
    {
        lemma_rows_of(self.data);
    }

    /// A board with no piece on it.
    pub fn new() -> (b: Board)
        ensures
            b@ == empty_grid(),
    {
        let b = Board { data: [[Piece::Empty; 7]; 6] };
        proof {
            b.lemma_cells();
            crate::grid::lemma_empty_grid();
            lemma_same_cells(b@, empty_grid());
        }
        b
    }

    /// The cell in row `row` and column `col`, both counted from 0.
    pub fn get(&self, row: usize, col: usize) -> (p: Piece)
        requires
            row < 6,
            col < 7,
        ensures
            p == cell(self@, row as int, col as int),
    {
        proof {
            self.lemma_cells();
        }
        self.data[row][col]
    }

    /// Replaces one cell.
    fn put(&mut self, row: usize, col: usize, p: Piece)
        requires
            row < 6,
            col < 7,
        ensures
            final(self)@ == set_cell(old(self)@, row as int, col as int, p),
    {
        self.data[row][col] = p;
        proof {
            let g = old(self)@;
            old(self).lemma_cells();
            self.lemma_cells();
            lemma_set_cell(g, row as int, col as int, p);
            lemma_same_cells(self@, set_cell(g, row as int, col as int, p));
        }
    }

    /// Drops a piece of `colour` into column `num`, counted from 1 at the
    /// left. The piece comes to rest in the lowest empty cell of the column,
    /// whose row and column (both counted from 0) are returned. A full
    /// column takes no piece: the board stays as it was and `None` is
    /// returned.
    pub fn place(&mut self, num: usize, colour: Piece) -> (spot: Option<(usize, usize)>)
        requires
            1 <= num <= 7,
            colour != Piece::Empty,
        ensures
            is_grid(final(self)@),
            final(self)@ == drop_piece(old(self)@, num - 1, colour),
            spot.is_none() <==> column_full(old(self)@, num - 1),
            spot.is_none() ==> final(self)@ == old(self)@,
            spot.is_some() ==> {
                let (row, col) = spot.unwrap();
                &&& col == num - 1
                &&& row == landing_row(old(self)@, num - 1)
                &&& is_landing(old(self)@, num - 1, row as int)
                &&& final(self)@ == set_cell(old(self)@, row as int, col as int, colour)
            },
            gravity(old(self)@) ==> gravity(final(self)@),
    {
        let col: usize = num - 1;
        let ghost g = self@;
        match self.resting_row(col) {
            None => {
                proof {
                    self.lemma_view();
                    lemma_landing_row(g, col as int);
                }
                None
            },
            Some(at) => {
                proof {
                    self.lemma_view();
                    lemma_landing_row(g, col as int);
                    if gravity(g) {
                        lemma_drop_keeps_gravity(g, col as int, colour);
                    }
                }
                self.put(at, col, colour);
                proof {
                    lemma_set_cell(g, at as int, col as int, colour);
                }
                Some((at, col))
            },
        }
    }

    /// The row where a piece dropped into column `col`, counted from 0,
    /// comes to rest, or `None` where the column is full.
    fn resting_row(&self, col: usize) -> (at: Option<usize>)
        requires
            col < 7,
        ensures
            at.is_none() <==> column_full(self@, col as int),
            at.is_some() ==> is_landing(self@, col as int, at.unwrap() as int),
    {
        proof {
            self.lemma_cells();
        }
        let mut row: usize = 6;
        while row > 0 && self.data[row - 1][col] != Piece::Empty
            invariant
                forall|r: int, c: int|
                    in_grid(r, c) ==> #[trigger] cell(self@, r, c) == self.data[r][c],
                row <= 6,
                col < 7,
                forall|k: int| row <= k < 6 ==> #[trigger] cell(self@, k, col as int) != Piece::Empty,
            decreases row,
        {
            assert(in_grid(row - 1, col as int));
            row = row - 1;
        }
        if row == 0 {
            None
        } else {
            assert(in_grid(row - 1, col as int));
            assert(cell(self@, row - 1, col as int) == Piece::Empty);
            Some(row - 1)
        }
    }

    /// Whether the cell `(row, col)` lies on the board and holds `p`.
    fn holds(&self, row: i8, col: i8, p: Piece) -> (b: bool)
        ensures
            b == owned(self@, row as int, col as int, p),
    {
        if 0 <= row && row < 6 && 0 <= col && col < 7 {
            let r: usize = row as usize;
            let c: usize = col as usize;
            proof {
                self.lemma_cells();
            }
            self.data[r][c] == p
        } else {
            false
        }
    }

    /// How many of the three cells that follow `(row, col)` in direction
    /// `(dr, dc)` hold `p` without a gap.
    fn run_from(&self, row: i8, col: i8, dr: i8, dc: i8, p: Piece) -> (n: u8)
        requires
            0 <= row < 6,
            0 <= col < 7,
            -1 <= dr <= 1,
            -1 <= dc <= 1,
        ensures
            n == reach(self@, row as int, col as int, dr as int, dc as int, p),
    {
        if !self.holds(row + dr, col + dc, p) {
            0
        } else if !self.holds(row + 2 * dr, col + 2 * dc, p) {
            1
        } else if !self.holds(row + 3 * dr, col + 3 * dc, p) {
            2
        } else {
            3
        }
    }

    /// Whether the piece in `(row, col)` and the runs of its colour on both
    /// sides of it along `(dr, dc)` make four or more.
    fn line_at(&self, row: i8, col: i8, dr: i8, dc: i8, p: Piece) -> (b: bool)
        requires
            0 <= row < 6,
            0 <= col < 7,
            -1 <= dr <= 1,
            -1 <= dc <= 1,
            p == cell(self@, row as int, col as int),
        ensures
            b == crate::grid::line_through(self@, row as int, col as int, dr as int, dc as int, p),
    {
        proof {
            lemma_reach_counts_line(self@, row as int, col as int, dr as int, dc as int);
        }
        let ahead: u8 = self.run_from(row, col, dr, dc, p);
        let behind: u8 = self.run_from(row, col, -dr, -dc, p);
        1 + ahead + behind >= 4
    }

    /// Whether the piece in row `row` and column `col` (both counted from
    /// 0) is part of four or more in a row of its colour: to the sides, up
    /// and down, or along either diagonal. An empty cell, or one off the
    /// board, is part of none.
    pub fn check_win(&self, row: usize, col: usize) -> (won: bool)
        ensures
            won == four_through(self@, row as int, col as int),
    {
        if row >= 6 || col >= 7 {
            return false;
        }
        let p = self.get(row, col);
        if p == Piece::Empty {
            return false;
        }
        let r: i8 = row as i8;
        let c: i8 = col as i8;
        self.line_at(r, c, 0, 1, p) || self.line_at(r, c, 1, 0, p) || self.line_at(r, c, 1, 1, p)
            || self.line_at(r, c, 1, -1, p)
    }

    /// Whether column `num`, counted from 1 at the left, has no empty cell.
    pub fn column_is_full(&self, num: usize) -> (full: bool)
        requires
            1 <= num <= 7,
        ensures
            full == column_full(self@, num - 1),
    {
        let col: usize = num - 1;
        let mut row: usize = 0;
        while row < 6
            invariant
                row <= 6,
                col == num - 1,
                col < 7,
                forall|k: int| 0 <= k < row ==> #[trigger] cell(self@, k, col as int) != Piece::Empty,
            decreases 6 - row,
        {
            if self.get(row, col) == Piece::Empty {
                return false;
            }
            row = row + 1;
        }
        true
    }

    /// Whether no column has an empty cell left.
    pub fn is_full(&self) -> (full: bool)
        ensures
            full == grid_full(self@),
    {
        let mut num: usize = 1;
        while num <= 7
            invariant
                1 <= num <= 8,
                forall|c: int| 0 <= c < num - 1 ==> #[trigger] column_full(self@, c),
            decreases 8 - num,
        {
            if !self.column_is_full(num) {
                return false;
            }
            num = num + 1;
        }
        true
    }

    /// The wire form of the board: 42 bytes, row by row from the top.
    pub fn to_buffer(&self) -> (buf: [u8; 42])
        ensures
            buf@ == encode_grid(self@),
    {
        let mut buf: [u8; 42] = [0u8; 42];
        let mut y: usize = 0;
        while y < 6
            invariant
                y <= 6,
                forall|i: int| 0 <= i < y * 7 ==> #[trigger] buf@[i] == encode_grid(self@)[i],
            decreases 6 - y,
        {
            let mut x: usize = 0;
            while x < 7
                invariant
                    y < 6,
                    x <= 7,
                    forall|i: int|
                        0 <= i < y * 7 + x ==> #[trigger] buf@[i] == encode_grid(self@)[i],
                decreases 7 - x,
            {
                let b: u8 = self.get(y, x).to_u8();
                proof {
                    let i = y * 7 + x;
                    assert(i / 7 == y && i % 7 == x);
                }
                buf[y * 7 + x] = b;
                x = x + 1;
            }
            y = y + 1;
        }
        assert(buf@ =~= encode_grid(self@));
        buf
    }

    /// Reads a board from its wire form. The bytes must be exactly 42 and
    /// none above 2; anything else is no board.
    pub fn from_buffer(buf: &[u8]) -> (b: Option<Board>)
        ensures
            b.is_some() <==> valid_wire(buf@),
            b.is_some() ==> b.unwrap()@ == decode_grid(buf@),
    {
        if buf.len() != 42 {
            return None;
        }
        let mut board = Board::new();
        let mut y: usize = 0;
        while y < 6
            invariant
                y <= 6,
                buf@.len() == 42,
                forall|i: int| 0 <= i < y * 7 ==> #[trigger] buf@[i] <= 2,
                forall|r: int, c: int|
                    0 <= r < y && 0 <= c < 7 ==> #[trigger] cell(board@, r, c) == piece_of(
                        buf@[r * 7 + c],
                    ),
            decreases 6 - y,
        {
            let mut x: usize = 0;
            while x < 7
                invariant
                    y < 6,
                    x <= 7,
                    buf@.len() == 42,
                    forall|i: int| 0 <= i < y * 7 + x ==> #[trigger] buf@[i] <= 2,
                    forall|r: int, c: int|
                        0 <= r < y && 0 <= c < 7 ==> #[trigger] cell(board@, r, c) == piece_of(
                            buf@[r * 7 + c],
                        ),
                    forall|c: int|
                        0 <= c < x ==> #[trigger] cell(board@, y as int, c) == piece_of(
                            buf@[y * 7 + c],
                        ),
                decreases 7 - x,
            {
                match Piece::from_u8(buf[y * 7 + x]) {
                    Some(p) => {
                        proof {
                            board.lemma_view();
                            lemma_set_cell(board@, y as int, x as int, p);
                        }
                        board.put(y, x, p);
                    },
                    None => {
                        assert(!(buf@[y * 7 + x] <= 2));
                        return None;
                    },
                }
                x = x + 1;
            }
            y = y + 1;
        }
        proof {
            board.lemma_view();
            crate::wire::lemma_decode_is_grid(buf@);
            lemma_same_cells(board@, decode_grid(buf@));
        }
        Some(board)
    }

    /// Replaces the board by the one that the wire bytes `buf` stand for,
    /// and says whether it did: bytes that are no board leave it as it was.
    pub fn update_from_buffer(&mut self, buf: &[u8]) -> (done: bool)
        ensures
            done <==> valid_wire(buf@),
            done ==> final(self)@ == decode_grid(buf@),
            !done ==> final(self)@ == old(self)@,
    {
        match Board::from_buffer(buf) {
            Some(b) => {
                self.data = b.data;
                true
            },
            None => false,
        }
    }
}

} // verus!
