use vstd::prelude::*;

use crate::piece::NUM_COLOURS;
use crate::pos::Pos;

verus! {

/// Number of columns of the visible board.
pub const GRID_WIDTH: i8 = 10;

/// Number of rows of the visible board.
pub const GRID_HEIGHT: i8 = 20;

/// The value written into a cell when it is cleared; any value that is not a
/// colour index (i.e. not below `NUM_COLOURS`) counts as empty.
pub const EMPTY_CELL: u8 = 255;

/// True when the position lies on the visible board.
pub open spec fn in_bounds(p: Pos) -> bool {
    0 <= p.x < GRID_WIDTH && 0 <= p.y < GRID_HEIGHT
}

/// Index of a board position in the row-major cell sequence.
pub open spec fn cell_index(p: Pos) -> int {
    p.y * GRID_WIDTH + p.x
}

/// The cell of column `x`, row `y` in a row-major cell sequence.
pub open spec fn cell_at(g: Seq<u8>, x: int, y: int) -> u8 {
    g[y * GRID_WIDTH + x]
}

/// A cell is locked exactly when it holds a colour index.
pub open spec fn cell_locked(c: u8) -> bool {
    c < NUM_COLOURS
}

/// Every cell of row `y` is locked.
pub open spec fn row_full(g: Seq<u8>, y: int) -> bool {
    forall|x: int| 0 <= x < GRID_WIDTH ==> cell_locked(#[trigger] cell_at(g, x, y))
}

/// The board after row `y` is removed: row 0 becomes all-empty, rows `0..y`
/// each shift down one row, and rows below `y` keep their contents.
pub open spec fn collapsed(g: Seq<u8>, y: int) -> Seq<u8> {
    Seq::new(
        g.len(),
        |i: int|
            if i < GRID_WIDTH {
                EMPTY_CELL
            } else if i < (y + 1) * GRID_WIDTH {
                g[i - GRID_WIDTH]
            } else {
                g[i]
            },
    )
}

/// The position is a free cell of the board, or lies above the visible board
/// (negative row) while horizontally in range; pieces spawn above the board
/// and may stand there until they lock.
pub open spec fn free_or_above(g: Seq<u8>, p: Pos) -> bool {
    if in_bounds(p) {
        !cell_locked(cell_at(g, p.x as int, p.y as int))
    } else {
        p.y < 0 && 0 <= p.x < GRID_WIDTH
    }
}

/// The fixed-size board of locked cells: `GRID_HEIGHT` rows of `GRID_WIDTH`
/// cells, stored row-major.
pub struct Grid {
    cells: Vec<u8>,
}

impl View for Grid {
    type V = Seq<u8>;

    closed spec fn view(&self) -> Seq<u8> {
        self.cells@
    }
}

impl Grid {
    /// The dimensions never change after construction.
    pub open spec fn wf(&self) -> bool {
        self@.len() == GRID_WIDTH * GRID_HEIGHT
    }

    /// An all-empty board.
    pub fn new() -> (g: Grid)
        ensures
            g.wf(),
            forall|i: int| 0 <= i < g@.len() ==> g@[i] == EMPTY_CELL,
    {
        let g = Grid { cells: vec![EMPTY_CELL; 200] };
        proof {
            assert(g@.len() == GRID_WIDTH * GRID_HEIGHT);
        }
        g
    }

    /// Read one cell of the board.
    pub fn cell(&self, pos: Pos) -> (c: u8)
        requires
            self.wf(),
            in_bounds(pos),
        ensures
            c == cell_at(self@, pos.x as int, pos.y as int),
    {
        self.cells[(pos.y as usize) * (GRID_WIDTH as usize) + (pos.x as usize)]
    }

    /// Bounds-aware occupancy query; see [`free_or_above`].
    pub fn is_free_or_above(&self, pos: Pos) -> (r: bool)
        requires
            self.wf(),
        ensures
            r == free_or_above(self@, pos),
    {
        if pos.x >= 0 && pos.x < GRID_WIDTH && pos.y >= 0 && pos.y < GRID_HEIGHT {
            self.cells[(pos.y as usize) * (GRID_WIDTH as usize) + (pos.x as usize)] >= NUM_COLOURS
        } else {
            pos.y < 0 && pos.x >= 0 && pos.x < GRID_WIDTH
        }
    }

    /// Write a locked cell at `pos` if it is on the board; report `false`
    /// (and write nothing) when it is out of bounds, which callers use to
    /// detect an illegal lock position.
    pub fn set(&mut self, pos: Pos, c: u8) -> (ok: bool)
        requires
            old(self).wf(),
        ensures
            final(self).wf(),
            ok == in_bounds(pos),
            ok ==> final(self)@ == old(self)@.update(cell_index(pos), c),
            !ok ==> final(self)@ == old(self)@,
    {
        if pos.x >= 0 && pos.x < GRID_WIDTH && pos.y >= 0 && pos.y < GRID_HEIGHT {
            self.cells[(pos.y as usize) * (GRID_WIDTH as usize) + (pos.x as usize)] = c;
            true
        } else {
            false
        }
    }

    /// If every cell of row `y` is locked, collapse the board: rows `0..y`
    /// shift down one row and row 0 becomes all-empty.  Reports whether the
    /// row was full (and hence removed); an incomplete row is left untouched.
    pub fn check_for_line(&mut self, y: i8) -> (cleared: bool)
        requires
            old(self).wf(),
            0 <= y < GRID_HEIGHT,
        ensures
            final(self).wf(),
            cleared == row_full(old(self)@, y as int),
            cleared ==> final(self)@ == collapsed(old(self)@, y as int),
            !cleared ==> final(self)@ == old(self)@,
    {
        let ghost g0 = self@;
        let w: usize = GRID_WIDTH as usize;
        let yu: usize = y as usize;

        let mut full = true;
        let mut x: usize = 0;
        while x < w
            invariant
                self == old(self),
                self.wf(),
                0 <= x <= GRID_WIDTH,
                w == GRID_WIDTH,
                yu == y as int,
                0 <= y < GRID_HEIGHT,
                g0 == self@,
                full == (forall|x2: int|
                    0 <= x2 < x ==> cell_locked(#[trigger] cell_at(g0, x2, y as int))),
            decreases w - x,
        {
            let c = self.cells[yu * w + x];
            proof {
                assert(c == cell_at(g0, x as int, y as int));
            }
            if c >= NUM_COLOURS {
                full = false;
            }
            x += 1;
        }
        if !full {
            return false;
        }

        let ghost n = self@.len();
        let mut j: usize = yu;
        while j >= 1
            invariant
                self.wf(),
                w == GRID_WIDTH,
                yu == y as int,
                0 <= y < GRID_HEIGHT,
                0 <= j <= yu,
                n == GRID_WIDTH * GRID_HEIGHT,
                forall|i: int|
                    0 <= i < n && !((j + 1) * GRID_WIDTH <= i < (yu + 1) * GRID_WIDTH)
                        ==> self@[i] == g0[i],
                forall|i: int|
                    (j + 1) * GRID_WIDTH <= i < (yu + 1) * GRID_WIDTH ==> self@[i] == g0[i - GRID_WIDTH],
            decreases j,
        {
            let mut x2: usize = 0;
            while x2 < w
                invariant
                    self.wf(),
                    w == GRID_WIDTH,
                    yu == y as int,
                    0 <= y < GRID_HEIGHT,
                    1 <= j <= yu,
                    0 <= x2 <= GRID_WIDTH,
                    n == GRID_WIDTH * GRID_HEIGHT,
                    forall|i: int|
                        0 <= i < n && !(j * GRID_WIDTH <= i < (yu + 1) * GRID_WIDTH)
                            ==> self@[i] == g0[i],
                    forall|i: int|
                        j * GRID_WIDTH <= i < j * GRID_WIDTH + x2 ==> self@[i] == g0[i - GRID_WIDTH],
                    forall|i: int|
                        j * GRID_WIDTH + x2 <= i < (j + 1) * GRID_WIDTH ==> self@[i] == g0[i],
                    forall|i: int|
                        (j + 1) * GRID_WIDTH <= i < (yu + 1) * GRID_WIDTH ==> self@[i] == g0[i - GRID_WIDTH],
                decreases w - x2,
            {
                let v = self.cells[(j - 1) * w + x2];
                self.cells[j * w + x2] = v;
                x2 += 1;
            }
            j -= 1;
        }

        let mut x3: usize = 0;
        while x3 < w
            invariant
                self.wf(),
                w == GRID_WIDTH,
                yu == y as int,
                0 <= y < GRID_HEIGHT,
                0 <= x3 <= GRID_WIDTH,
                n == GRID_WIDTH * GRID_HEIGHT,
                forall|i: int| 0 <= i < x3 ==> self@[i] == EMPTY_CELL,
                forall|i: int| x3 <= i < GRID_WIDTH ==> self@[i] == g0[i],
                forall|i: int|
                    GRID_WIDTH <= i < (yu + 1) * GRID_WIDTH ==> self@[i] == g0[i - GRID_WIDTH],
                forall|i: int| (yu + 1) * GRID_WIDTH <= i < n ==> self@[i] == g0[i],
            decreases w - x3,
        {
            self.cells[x3] = EMPTY_CELL;
            x3 += 1;
        }
        proof {
            assert(self@ =~= collapsed(g0, y as int));
        }
        true
    }
}

/// After a collapse, row 0 is all-empty, each row `1..=y` holds what the row
/// above it held, and rows below `y` are unchanged.
pub proof fn lemma_collapsed_rows(g: Seq<u8>, y: int)
    requires
        g.len() == GRID_WIDTH * GRID_HEIGHT,
        0 <= y < GRID_HEIGHT,
    ensures
        forall|x: int| 0 <= x < GRID_WIDTH ==> cell_at(collapsed(g, y), x, 0) == EMPTY_CELL,
        forall|x: int, r: int|
            0 <= x < GRID_WIDTH && 1 <= r <= y ==> cell_at(collapsed(g, y), x, r) == cell_at(
                g,
                x,
                r - 1,
            ),
        forall|x: int, r: int|
            0 <= x < GRID_WIDTH && y < r < GRID_HEIGHT ==> cell_at(collapsed(g, y), x, r)
                == cell_at(g, x, r),
{
    assert forall|x: int, r: int|
        0 <= x < GRID_WIDTH && 1 <= r <= y implies cell_at(collapsed(g, y), x, r) == cell_at(
        g,
        x,
        r - 1,
    ) by {
        assert(GRID_WIDTH <= r * GRID_WIDTH + x < (y + 1) * GRID_WIDTH) by (nonlinear_arith)
            requires
                0 <= x < GRID_WIDTH as int,
                1 <= r <= y,
        ;
        assert(r * GRID_WIDTH + x - GRID_WIDTH == (r - 1) * GRID_WIDTH + x) by (nonlinear_arith);
    }
    assert forall|x: int, r: int|
        0 <= x < GRID_WIDTH && y < r < GRID_HEIGHT implies cell_at(collapsed(g, y), x, r)
        == cell_at(g, x, r) by {
        assert((y + 1) * GRID_WIDTH <= r * GRID_WIDTH + x < GRID_WIDTH * GRID_HEIGHT)
            by (nonlinear_arith)
            requires
                0 <= x < GRID_WIDTH as int,
                y < r < GRID_HEIGHT as int,
        ;
    }
}

} // verus!
