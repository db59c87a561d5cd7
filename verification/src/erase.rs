//! The areas that the erase functions make blank.

use crate::bounds::least;
use crate::cell::Cell;
use crate::grid::{erase_cells, grid_view, row_erased};
use vstd::prelude::*;

verus! {

/// An area of the screen relative to the cursor: part of the display, or part
/// of the cursor's line. Mode 0 is from the cursor on, mode 1 is up to the
/// cursor, mode 2 is all of it; for the display mode 3 is all of it too.
pub struct Region {
    pub display: bool,
    pub mode: int,
    pub cursor_x: int,
    pub cursor_y: int,
    pub cols: int,
    pub rows: int,
}

impl Region {
    /// The columns of row `y` that belong to the area, as the first one and
    /// the one after the last one.
    pub open spec fn span(self, y: int) -> (int, int) {
        let at_cursor = y == self.cursor_y;
        let after = self.cursor_y < y < self.rows;
        let before = 0 <= y < self.cursor_y;
        if self.display {
            if self.mode == 0 && at_cursor && y < self.rows {
                (self.cursor_x, self.cols)
            } else if self.mode == 0 && after {
                (0, self.cols)
            } else if self.mode == 1 && before {
                (0, self.cols)
            } else if self.mode == 1 && at_cursor {
                (0, least(self.cursor_x + 1, self.cols))
            } else if (self.mode == 2 || self.mode == 3) && 0 <= y < self.rows {
                (0, self.cols)
            } else {
                (0, 0)
            }
        } else if at_cursor {
            if self.mode == 0 {
                (self.cursor_x, self.cols)
            } else if self.mode == 1 {
                (0, self.cursor_x + 1)
            } else if self.mode == 2 {
                (0, self.cols)
            } else {
                (0, 0)
            }
        } else {
            (0, 0)
        }
    }

    /// The grid has the part of row `y` that belongs to the area.
    pub open spec fn row_fits(self, grid: Seq<Seq<Cell>>, y: int) -> bool {
        let (from, to) = self.span(y);
        from < to ==> 0 <= y < grid.len() && to <= grid[y].len()
    }

    /// The grid has the whole area.
    pub open spec fn fits(self, grid: Seq<Seq<Cell>>) -> bool {
        forall|y: int| #[trigger] self.row_fits(grid, y)
    }

    /// The grid with the area made blank.
    pub open spec fn erased(self, grid: Seq<Seq<Cell>>) -> Seq<Seq<Cell>> {
        Seq::new(grid.len(), |y: int| row_erased(grid[y], self.span(y).0, self.span(y).1))
    }
}

/// An area of the screen, with machine numbers.
pub struct Area {
    pub display: bool,
    pub mode: u16,
    pub cursor_x: usize,
    pub cursor_y: usize,
    pub cols: usize,
    pub rows: usize,
}

impl View for Area {
    type V = Region;

    open spec fn view(&self) -> Region {
        Region {
            display: self.display,
            mode: self.mode as int,
            cursor_x: self.cursor_x as int,
            cursor_y: self.cursor_y as int,
            cols: self.cols as int,
            rows: self.rows as int,
        }
    }
}

proof fn lemma_row_len(grid: Seq<Vec<Cell>>, y: int)
    ensures
        0 <= y < grid.len() ==> grid_view(grid)[y].len() <= usize::MAX,
{
    if 0 <= y < grid.len() {
        assert(grid[y].len() <= usize::MAX);
    }
}

impl Area {
    fn row_span(&self, y: usize) -> (span: (usize, usize))
        requires
            !self.display && self.mode == 1 ==> self.cursor_x < usize::MAX,
        ensures
            span.0 == self@.span(y as int).0,
            span.1 == self@.span(y as int).1,
    {
        if self.display {
            match self.mode {
                0 if y == self.cursor_y && y < self.rows => (self.cursor_x, self.cols),
                0 if self.cursor_y < y && y < self.rows => (0, self.cols),
                1 if y < self.cursor_y => (0, self.cols),
                1 if y == self.cursor_y => {
                    if self.cursor_x < self.cols {
                        (0, self.cursor_x + 1)
                    } else {
                        (0, self.cols)
                    }
                },
                2 if y < self.rows => (0, self.cols),
                3 if y < self.rows => (0, self.cols),
                _ => (0, 0),
            }
        } else if y == self.cursor_y {
            match self.mode {
                0 => (self.cursor_x, self.cols),
                1 => (0, self.cursor_x + 1),
                2 => (0, self.cols),
                _ => (0, 0),
            }
        } else {
            (0, 0)
        }
    }

    fn accepts_row(&self, grid: &Vec<Vec<Cell>>, y: usize) -> (ok: bool)
        requires
            !self.display && self.mode == 1 ==> self.cursor_x < usize::MAX,
        ensures
            ok == self@.row_fits(grid_view(grid@), y as int),
    {
        let (from, to) = self.row_span(y);
        from >= to || (y < grid.len() && to <= grid[y].len())
    }

    /// Whether the grid has the whole area.
    pub fn accepts(&self, grid: &Vec<Vec<Cell>>) -> (ok: bool)
        ensures
            ok == self@.fits(grid_view(grid@)),
    {
        let ghost g = grid_view(grid@);
        if !self.display && self.mode == 1 && self.cursor_x == usize::MAX {
            proof {
                lemma_row_len(grid@, self.cursor_y as int);
                assert(!self@.row_fits(g, self.cursor_y as int));
            }
            return false;
        }
        if !self.accepts_row(grid, self.cursor_y) {
            return false;
        }
        if self.rows > 0 && !self.accepts_row(grid, self.rows - 1) {
            return false;
        }
        for y in 0..grid.len()
            invariant
                g == grid_view(grid@),
                !self.display && self.mode == 1 ==> self.cursor_x < usize::MAX,
                forall|i: int| 0 <= i < y ==> #[trigger] self@.row_fits(g, i),
        {
            if !self.accepts_row(grid, y) {
                return false;
            }
        }
        proof {
            assert(self@.row_fits(g, self.cursor_y as int));
            assert(self.rows > 0 ==> self@.row_fits(g, self.rows - 1));
        }
        true
    }

    /// Makes the area blank.
    pub fn erase(&self, grid: &mut Vec<Vec<Cell>>)
        requires
            self@.fits(grid_view(old(grid)@)),
        ensures
            grid_view(final(grid)@) == self@.erased(grid_view(old(grid)@)),
    {
        let ghost start = grid_view(grid@);
        proof {
            if !self.display && self.mode == 1 {
                assert(self@.row_fits(start, self.cursor_y as int));
                lemma_row_len(grid@, self.cursor_y as int);
            }
        }
        let height: usize = grid.len();
        for y in 0..height
            invariant
                height == start.len(),
                grid@.len() == start.len(),
                self@.fits(start),
                !self.display && self.mode == 1 ==> self.cursor_x < usize::MAX,
                forall|i: int|
                    0 <= i < y ==> (#[trigger] grid@[i])@ == row_erased(
                        start[i],
                        self@.span(i).0,
                        self@.span(i).1,
                    ),
                forall|i: int| y <= i < start.len() ==> (#[trigger] grid@[i])@ == start[i],
        {
            let (from, to) = self.row_span(y);
            assert(self@.row_fits(start, y as int));
            erase_cells(&mut grid[y], from, to);
        }
        assert(grid_view(grid@) =~= self@.erased(start));
    }
}

} // verus!
