//! The play-field: a grid of settled cells, and what it means for a piece to
//! fit on it, to settle into it, and for its full rows to be cleared.

use crate::piece::{Color, Piece};
use vstd::prelude::*;

verus! {

/// Columns of the play-field.
pub const BOARD_WIDTH: usize = 10;

/// Rows of the play-field. Row `0` is the top row.
pub const BOARD_HEIGHT: usize = 20;

/// Cells of the play-field.
pub const CELL_COUNT: usize = 200;

/// The settled cells, row after row from the top: the cell in column `x` of
/// row `y` is entry `y * BOARD_WIDTH + x`.
#[derive(Clone, Copy, Debug, PartialEq, Eq)]
pub struct Board {
    pub cells: [Option<Color>; 200],
}

impl View for Board {
    type V = Seq<Option<Color>>;

    open spec fn view(&self) -> Seq<Option<Color>> {
        self.cells@
    }
}

/// Whether `(x, y)` names a cell of the play-field.
pub open spec fn on_board(x: int, y: int) -> bool {
    0 <= x < BOARD_WIDTH && 0 <= y < BOARD_HEIGHT
}

/// The cell in column `x` of row `y` of the grid `g`.
pub open spec fn cell(g: Seq<Option<Color>>, x: int, y: int) -> Option<Color> {
    g[y * BOARD_WIDTH + x]
}

/// The grid without a settled cell.
pub open spec fn empty_grid() -> Seq<Option<Color>> {
    Seq::new(CELL_COUNT as nat, |i: int| None::<Color>)
}

/// Whether every cell of row `y` is settled.
pub open spec fn row_full(g: Seq<Option<Color>>, y: int) -> bool {
    forall|x: int| 0 <= x < BOARD_WIDTH ==> (#[trigger] cell(g, x, y)) is Some
}

/// The grid `g` after row `y` has been taken out: the rows above it have
/// moved down by one, and the top row is empty.
pub open spec fn collapsed(g: Seq<Option<Color>>, y: int) -> Seq<Option<Color>> {
    Seq::new(
        CELL_COUNT as nat,
        |i: int|
            {
                let r = i / BOARD_WIDTH as int;
                if r == 0 {
                    None
                } else if r <= y {
                    g[i - BOARD_WIDTH]
                } else {
                    g[i]
                }
            },
    )
}

/// Whether a piece's cell may lie at `(x, y)`: inside the side walls, above
/// the floor, and, where it is on the board, on a cell that is not settled.
/// Above the top row nothing is in its way.
pub open spec fn cell_free(g: Seq<Option<Color>>, x: int, y: int) -> bool {
    &&& 0 <= x < BOARD_WIDTH
    &&& y < BOARD_HEIGHT
    &&& y >= 0 ==> cell(g, x, y) is None
}

/// Whether the piece `p` may be where it is on the grid `g`: each of its four
/// cells is free.
pub open spec fn admits(g: Seq<Option<Color>>, p: Piece) -> bool {
    forall|i: int| 0 <= i < 4 ==> cell_free(g, (#[trigger] p.cells()[i]).0, p.cells()[i].1)
}

/// The grid `g` with the cells of `p` settled in the colour of `p`.
pub open spec fn settled(g: Seq<Option<Color>>, p: Piece) -> Seq<Option<Color>> {
    Seq::new(
        CELL_COUNT as nat,
        |i: int|
            if p.covers(i % BOARD_WIDTH as int, i / BOARD_WIDTH as int) {
                Some(p.color)
            } else {
                g[i]
            },
    )
}

/// The rows from `u` down to the bottom of `g` that are not full, from the
/// top down.
pub open spec fn kept_from(g: Seq<Option<Color>>, u: int) -> Seq<int>
    decreases BOARD_HEIGHT - u,
{
    if u >= BOARD_HEIGHT {
        Seq::empty()
    } else if row_full(g, u) {
        kept_from(g, u + 1)
    } else {
        seq![u] + kept_from(g, u + 1)
    }
}

/// The rows of `g` that are not full, from the top down.
pub open spec fn kept_rows(g: Seq<Option<Color>>) -> Seq<int> {
    kept_from(g, 0)
}

/// The number of full rows of `g` from row `u` down to the bottom.
pub open spec fn full_from(g: Seq<Option<Color>>, u: int) -> int
    decreases BOARD_HEIGHT - u,
{
    if u >= BOARD_HEIGHT {
        0
    } else if row_full(g, u) {
        1 + full_from(g, u + 1)
    } else {
        full_from(g, u + 1)
    }
}

/// The number of full rows of `g`.
pub open spec fn full_rows(g: Seq<Option<Color>>) -> int {
    full_from(g, 0)
}

/// The grid `g` without its full rows: the rows that are not full keep their
/// contents and their order and rest on the bottom, and as many empty rows as
/// were taken out stand above them.
pub open spec fn compacted(g: Seq<Option<Color>>) -> Seq<Option<Color>> {
    Seq::new(
        CELL_COUNT as nat,
        |i: int|
            {
                let y = i / BOARD_WIDTH as int;
                if y < full_rows(g) {
                    None
                } else {
                    cell(g, i % BOARD_WIDTH as int, kept_rows(g)[y - full_rows(g)])
                }
            },
    )
}

/// How many rows of the grid as it was a bottom-up scan has yet to look at,
/// when it has come up to row `y` and has taken out `cleared` rows.
spec fn unscanned(y: int, cleared: int) -> int {
    if y >= cleared {
        y - cleared
    } else {
        0
    }
}

impl Board {
    /// The empty board.
    pub fn new() -> (board: Board)
        ensures
            board@ == empty_grid(),
    {
        Board { cells: [None;200] }
    }

    /// Where the cell in column `x` of row `y` stands among the cells.
    pub fn idx(x: usize, y: usize) -> (i: usize)
        requires
            x < BOARD_WIDTH,
            y < BOARD_HEIGHT,
        ensures
            i == y * BOARD_WIDTH + x,
            i < CELL_COUNT,
    {
        y * BOARD_WIDTH + x
    }

    /// The cell in column `x` of row `y`.
    pub fn get(&self, x: usize, y: usize) -> (c: Option<Color>)
        requires
            x < BOARD_WIDTH,
            y < BOARD_HEIGHT,
        ensures
            c == cell(self@, x as int, y as int),
    {
        self.cells[Self::idx(x, y)]
    }

    /// Puts `value` into the cell in column `x` of row `y`.
    pub fn set(&mut self, x: usize, y: usize, value: Option<Color>)
        requires
            x < BOARD_WIDTH,
            y < BOARD_HEIGHT,
        ensures
            final(self)@ == old(self)@.update(y * BOARD_WIDTH + x, value),
    {
        self.cells[Self::idx(x, y)] = value;
    }

    /// Whether every cell of row `y` is settled.
    pub fn row_is_full(&self, y: usize) -> (full: bool)
        requires
            y < BOARD_HEIGHT,
        ensures
            full == row_full(self@, y as int),
    {
        let mut x: usize = 0;
        while x < BOARD_WIDTH
            invariant
                x <= BOARD_WIDTH,
                y < BOARD_HEIGHT,
                forall|c: int| 0 <= c < x ==> (#[trigger] cell(self@, c, y as int)) is Some,
            decreases BOARD_WIDTH - x,
        {
            if self.cells[Self::idx(x, y)].is_none() {
                assert(cell(self@, x as int, y as int) is None);
                return false;
            }
            x += 1;
        }
        true
    }

    /// Takes row `y` out of the grid: each row from `y` up to the second takes
    /// the contents of the row above it, then the top row is emptied.
    pub fn collapse_row(&mut self, y: usize)
        requires
            y < BOARD_HEIGHT,
        ensures
            final(self)@ == collapsed(old(self)@, y as int),
    {
        let mut yy: usize = y;
        while yy > 0
            invariant
                yy <= y < BOARD_HEIGHT,
                forall|i: int|
                    0 <= i < CELL_COUNT ==> #[trigger] self@[i] == (if yy < i / BOARD_WIDTH as int
                        <= y {
                        old(self)@[i - BOARD_WIDTH]
                    } else {
                        old(self)@[i]
                    }),
            decreases yy,
        {
            let mut x: usize = 0;
            while x < BOARD_WIDTH
                invariant
                    x <= BOARD_WIDTH,
                    0 < yy <= y < BOARD_HEIGHT,
                    forall|i: int|
                        0 <= i < CELL_COUNT ==> #[trigger] self@[i] == (if yy < i
                            / BOARD_WIDTH as int <= y || (yy * BOARD_WIDTH <= i < yy * BOARD_WIDTH
                            + x) {
                            old(self)@[i - BOARD_WIDTH]
                        } else {
                            old(self)@[i]
                        }),
                decreases BOARD_WIDTH - x,
            {
                let from: usize = Self::idx(x, yy - 1);
                let to: usize = Self::idx(x, yy);
                let ghost before = self@;
                let above = self.cells[from];
                self.cells[to] = above;
                assert(self@ == before.update(to as int, above));
                x += 1;
            }
            yy -= 1;
        }
        let mut x: usize = 0;
        while x < BOARD_WIDTH
            invariant
                x <= BOARD_WIDTH,
                y < BOARD_HEIGHT,
                forall|i: int|
                    0 <= i < CELL_COUNT ==> #[trigger] self@[i] == (if i < x {
                        None
                    } else if 0 < i / BOARD_WIDTH as int <= y {
                        old(self)@[i - BOARD_WIDTH]
                    } else {
                        old(self)@[i]
                    }),
            decreases BOARD_WIDTH - x,
        {
            let ghost before = self@;
            self.cells[Self::idx(x, 0)] = None;
            assert(self@ == before.update(x as int, None));
            x += 1;
        }
        assert(self@ =~= collapsed(old(self)@, y as int));
    }

    /// Takes every full row out of the grid and returns how many there were.
    /// The rows are scanned from the bottom up; after a row has been taken
    /// out, the same row is looked at again, since the one above has moved
    /// into it.
    pub fn clear_full_rows(&mut self) -> (cleared: usize)
        ensures
            final(self)@ == compacted(old(self)@),
            cleared == full_rows(old(self)@),
            cleared <= BOARD_HEIGHT,
    {
        let ghost g0 = self@;
        let mut cleared: usize = 0;
        let mut y: usize = BOARD_HEIGHT;
        while y > 0
            invariant
                y <= BOARD_HEIGHT,
                cleared <= BOARD_HEIGHT,
                g0 == old(self)@,
                cleared == full_from(g0, unscanned(y as int, cleared as int)),
                kept_from(g0, unscanned(y as int, cleared as int)).len() == BOARD_HEIGHT - cleared
                    - unscanned(y as int, cleared as int),
                forall|i: int|
                    0 <= i < CELL_COUNT ==> #[trigger] self@[i] == ({
                        let u = unscanned(y as int, cleared as int);
                        let r = i / BOARD_WIDTH as int;
                        if r < cleared {
                            None
                        } else if r < cleared + u {
                            g0[i - cleared * BOARD_WIDTH]
                        } else {
                            cell(
                                g0,
                                i % BOARD_WIDTH as int,
                                kept_from(g0, u)[r - cleared - u],
                            )
                        }
                    }),
            decreases y + BOARD_HEIGHT - cleared,
        {
            let ghost u = unscanned(y as int, cleared as int);
            let ghost before = self@;
            proof {
                if u == 0 {
                    assert(cell(before, 0, y - 1) is None);
                } else {
                    assert forall|x: int|
                        #![trigger cell(before, x, y - 1)]
                        #![trigger cell(g0, x, u - 1)]
                        0 <= x < BOARD_WIDTH implies cell(before, x, y - 1) == cell(
                        g0,
                        x,
                        u - 1,
                    ) by {
                        assert(before[(y - 1) * BOARD_WIDTH + x] == g0[(u - 1) * BOARD_WIDTH + x]);
                    }
                    assert(row_full(before, y - 1) == row_full(g0, u - 1));
                }
            }
            if self.row_is_full(y - 1) {
                self.collapse_row(y - 1);
                cleared += 1;
            } else {
                y -= 1;
            }
        }
        assert(self@ =~= compacted(g0));
        cleared
    }
}

} // verus!
