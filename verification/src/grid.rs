//! Rows and grids of cells, and the edits that control functions make.

use crate::bounds::{greatest, least};
use crate::cell::{blank_cell, Cell};
use vstd::prelude::*;

verus! {

/// The contents of a grid.
pub open spec fn grid_view(grid: Seq<Vec<Cell>>) -> Seq<Seq<Cell>> {
    Seq::new(grid.len(), |y: int| grid[y]@)
}

/// `n` blank cells.
pub open spec fn blank_cells(n: int) -> Seq<Cell> {
    Seq::new(n as nat, |x: int| blank_cell())
}

/// `n` blank rows of `cols` cells.
pub open spec fn blank_rows(n: int, cols: int) -> Seq<Seq<Cell>> {
    Seq::new(n as nat, |y: int| blank_cells(cols))
}

/// The grid has a cell in row `y` and column `x`.
pub open spec fn in_grid(grid: Seq<Seq<Cell>>, y: int, x: int) -> bool {
    0 <= y < grid.len() && 0 <= x < grid[y].len()
}

/// The grid with the cell in row `y` and column `x` replaced.
pub open spec fn with_cell(grid: Seq<Seq<Cell>>, y: int, x: int, cell: Cell) -> Seq<Seq<Cell>> {
    grid.update(y, grid[y].update(x, cell))
}

/// The row with its cells from column `from` up to column `to` blank.
pub open spec fn row_erased(row: Seq<Cell>, from: int, to: int) -> Seq<Cell> {
    Seq::new(
        row.len(),
        |x: int|
            if from <= x < to {
                blank_cell()
            } else {
                row[x]
            },
    )
}

/// The grid with all its cells blank.
pub open spec fn grid_erased(grid: Seq<Seq<Cell>>) -> Seq<Seq<Cell>> {
    Seq::new(grid.len(), |y: int| blank_cells(grid[y].len() as int))
}

/// The first `rows` rows of a grid.
pub open spec fn grid_truncated(grid: Seq<Seq<Cell>>, rows: int) -> Seq<Seq<Cell>> {
    grid.take(least(rows, grid.len() as int))
}

/// The grid with `n` blank rows put in front of row `at`; as many rows leave
/// at the bottom. An empty grid gains a single row.
pub open spec fn lines_inserted(grid: Seq<Seq<Cell>>, at: int, n: int, cols: int) -> Seq<
    Seq<Cell>,
> {
    let height = greatest(grid.len() as int, 1);
    grid.take(at) + blank_rows(least(n, height - at), cols) + grid.subrange(
        at,
        greatest(at, grid.len() - n),
    )
}

/// The grid with `n` rows from row `at` on taken out; as many blank rows enter
/// at the bottom.
pub open spec fn lines_deleted(grid: Seq<Seq<Cell>>, at: int, n: int, cols: int) -> Seq<
    Seq<Cell>,
> {
    let gone = least(n, grid.len() - at);
    grid.take(at) + grid.skip(at + gone) + blank_rows(gone, cols)
}

/// The row with `n` cells from column `at` on taken out; as many blank cells
/// enter at the right.
pub open spec fn cells_deleted(row: Seq<Cell>, at: int, n: int) -> Seq<Cell> {
    if at < row.len() {
        let gone = least(n, row.len() - at);
        row.take(at) + row.skip(at + gone) + blank_cells(gone)
    } else {
        row
    }
}

/// The row with `n` blank cells put in front of column `at`, cut off after
/// `cols` cells. A row that has no such column stays as it is.
pub open spec fn cells_inserted(row: Seq<Cell>, at: int, n: int, cols: int) -> Seq<Cell> {
    if at < row.len() {
        let all = row.take(at) + blank_cells(n) + row.skip(at);
        all.take(least(cols, all.len() as int))
    } else {
        row
    }
}

/// A row of `cols` blank cells.
pub fn blank_row(cols: usize) -> (row: Vec<Cell>)
    ensures
        row@ == blank_cells(cols as int),
{
    let mut row: Vec<Cell> = Vec::with_capacity(cols);
    for x in 0..cols
        invariant
            row@ == blank_cells(x as int),
    {
        row.push(Cell::blank());
        assert(row@ =~= blank_cells(x + 1));
    }
    row
}

/// A grid of `rows` blank rows of `cols` cells.
pub fn blank_grid(cols: usize, rows: usize) -> (grid: Vec<Vec<Cell>>)
    ensures
        grid_view(grid@) == blank_rows(rows as int, cols as int),
{
    let mut grid: Vec<Vec<Cell>> = Vec::with_capacity(rows);
    for y in 0..rows
        invariant
            grid_view(grid@) == blank_rows(y as int, cols as int),
    {
        let ghost before = grid@;
        grid.push(blank_row(cols));
        assert(grid_view(grid@) =~= grid_view(before).push(blank_cells(cols as int)));
        assert(grid_view(grid@) =~= blank_rows(y + 1, cols as int));
    }
    grid
}

/// A copy of a grid.
pub fn copy_grid(grid: &Vec<Vec<Cell>>) -> (copy: Vec<Vec<Cell>>)
    ensures
        grid_view(copy@) == grid_view(grid@),
{
    let mut copy: Vec<Vec<Cell>> = Vec::with_capacity(grid.len());
    for y in 0..grid.len()
        invariant
            copy@.len() == y,
            forall|i: int| 0 <= i < y ==> (#[trigger] copy@[i])@ == grid@[i]@,
    {
        let row: Vec<Cell> = grid[y].clone();
        assert(row@ =~= grid@[y as int]@);
        copy.push(row);
    }
    assert(grid_view(copy@) =~= grid_view(grid@));
    copy
}

/// Makes the cells of a row blank from column `from` up to column `to`.
pub fn erase_cells(row: &mut Vec<Cell>, from: usize, to: usize)
    requires
        from < to ==> to <= old(row)@.len(),
    ensures
        final(row)@ == row_erased(old(row)@, from as int, to as int),
{
    let mut x: usize = from;
    while x < to
        invariant
            from < to ==> x <= to <= row@.len(),
            from >= to ==> x == from,
            from <= x,
            row@.len() == old(row)@.len(),
            row@ == row_erased(old(row)@, from as int, x as int),
        decreases to - x,
    {
        row[x] = Cell::blank();
        x = x + 1;
        assert(row@ =~= row_erased(old(row)@, from as int, x as int));
    }
    assert(row@ =~= row_erased(old(row)@, from as int, to as int));
}

/// Makes all cells of a grid blank.
pub fn erase_grid(grid: &mut Vec<Vec<Cell>>)
    ensures
        grid_view(final(grid)@) == grid_erased(grid_view(old(grid)@)),
{
    let ghost start = grid@;
    let height: usize = grid.len();
    for y in 0..height
        invariant
            height == start.len(),
            grid@.len() == start.len(),
            forall|i: int|
                0 <= i < y ==> (#[trigger] grid@[i])@ == blank_cells(start[i]@.len() as int),
            forall|i: int| y <= i < start.len() ==> grid@[i] == start[i],
    {
        let cols: usize = grid[y].len();
        grid[y] = blank_row(cols);
    }
    assert(grid_view(grid@) =~= grid_erased(grid_view(start)));
}

proof fn lemma_grid_edits(grid: Seq<Vec<Cell>>)
    ensures
        forall|i: int, row: Vec<Cell>|
            0 <= i <= grid.len() ==> #[trigger] grid_view(grid.insert(i, row)) == grid_view(
                grid,
            ).insert(i, row@),
        forall|i: int|
            0 <= i < grid.len() ==> #[trigger] grid_view(grid.remove(i)) == grid_view(grid).remove(
                i,
            ),
        forall|row: Vec<Cell>| #[trigger]
            grid_view(grid.push(row)) == grid_view(grid).push(row@),
        grid.len() > 0 ==> grid_view(grid.drop_last()) == grid_view(grid).drop_last(),
        forall|n: int|
            0 <= n <= grid.len() ==> #[trigger] grid_view(grid.take(n)) == grid_view(grid).take(n),
        forall|i: int, row: Vec<Cell>|
            0 <= i < grid.len() ==> #[trigger] grid_view(grid.update(i, row)) == grid_view(
                grid,
            ).update(i, row@),
{
    assert forall|i: int, row: Vec<Cell>| 0 <= i <= grid.len() implies #[trigger] grid_view(
        grid.insert(i, row),
    ) == grid_view(grid).insert(i, row@) by {
        assert(grid_view(grid.insert(i, row)) =~= grid_view(grid).insert(i, row@));
    }
    assert forall|i: int| 0 <= i < grid.len() implies #[trigger] grid_view(grid.remove(i))
        == grid_view(grid).remove(i) by {
        assert(grid_view(grid.remove(i)) =~= grid_view(grid).remove(i));
    }
    assert forall|row: Vec<Cell>| #[trigger] grid_view(grid.push(row)) == grid_view(grid).push(
        row@,
    ) by {
        assert(grid_view(grid.push(row)) =~= grid_view(grid).push(row@));
    }
    if grid.len() > 0 {
        assert(grid_view(grid.drop_last()) =~= grid_view(grid).drop_last());
    }
    assert forall|n: int| 0 <= n <= grid.len() implies #[trigger] grid_view(grid.take(n))
        == grid_view(grid).take(n) by {
        assert(grid_view(grid.take(n)) =~= grid_view(grid).take(n));
    }
    assert forall|i: int, row: Vec<Cell>| 0 <= i < grid.len() implies #[trigger] grid_view(
        grid.update(i, row),
    ) == grid_view(grid).update(i, row@) by {
        assert(grid_view(grid.update(i, row)) =~= grid_view(grid).update(i, row@));
    }
}

/// Puts `n` blank rows of `cols` cells in front of row `at`, and drops as many
/// rows at the bottom.
pub fn insert_lines(grid: &mut Vec<Vec<Cell>>, at: usize, n: usize, cols: usize)
    requires
        at < greatest(old(grid)@.len() as int, 1),
        n > 0,
    ensures
        grid_view(final(grid)@) == lines_inserted(
            grid_view(old(grid)@),
            at as int,
            n as int,
            cols as int,
        ),
{
    let ghost start = grid_view(grid@);
    let ghost height = greatest(start.len() as int, 1);
    for k in 0..n
        invariant
            at < height,
            height == greatest(start.len() as int, 1),
            k == 0 ==> grid_view(grid@) == start,
            k > 0 ==> grid_view(grid@) == lines_inserted(start, at as int, k as int, cols as int),
    {
        let ghost before = grid_view(grid@);
        proof {
            lemma_grid_edits(grid@);
        }
        if grid.len() > 0 {
            grid.pop();
        }
        proof {
            lemma_grid_edits(grid@);
        }
        grid.insert(at, blank_row(cols));
        assert(grid_view(grid@) =~= lines_inserted(start, at as int, k + 1, cols as int));
    }
}

/// Takes `n` rows from row `at` on out, and adds as many blank rows of `cols`
/// cells at the bottom.
pub fn delete_lines(grid: &mut Vec<Vec<Cell>>, at: usize, n: usize, cols: usize)
    requires
        at < old(grid)@.len(),
    ensures
        grid_view(final(grid)@) == lines_deleted(
            grid_view(old(grid)@),
            at as int,
            n as int,
            cols as int,
        ),
{
    let ghost start = grid_view(grid@);
    assert(start =~= lines_deleted(start, at as int, 0, cols as int));
    for k in 0..n
        invariant
            at < start.len(),
            grid_view(grid@) == lines_deleted(start, at as int, k as int, cols as int),
    {
        proof {
            lemma_grid_edits(grid@);
        }
        assert(grid_view(grid@).len() == start.len());
        grid.remove(at);
        proof {
            lemma_grid_edits(grid@);
        }
        grid.push(blank_row(cols));
        assert(grid_view(grid@) =~= lines_deleted(start, at as int, k + 1, cols as int));
    }
}

/// Takes `n` cells from column `at` on out of a row, and adds as many blank
/// cells at the right.
pub fn delete_cells(row: &mut Vec<Cell>, at: usize, n: usize)
    ensures
        final(row)@ == cells_deleted(old(row)@, at as int, n as int),
{
    let ghost start = row@;
    if at < row.len() {
        assert(start =~= cells_deleted(start, at as int, 0));
        for k in 0..n
            invariant
                at < start.len(),
                row@ == cells_deleted(start, at as int, k as int),
        {
            row.remove(at);
            row.push(Cell::blank());
            assert(row@ =~= cells_deleted(start, at as int, k + 1));
        }
    }
}

/// Puts `n` blank cells in front of column `at` of a row, and cuts the row off
/// after `cols` cells.
pub fn insert_cells(row: &mut Vec<Cell>, at: usize, n: usize, cols: usize)
    requires
        n > 0,
    ensures
        final(row)@ == cells_inserted(old(row)@, at as int, n as int, cols as int),
{
    let ghost start = row@;
    for k in 0..n
        invariant
            k == 0 ==> row@ == start,
            k > 0 ==> row@ == cells_inserted(start, at as int, k as int, cols as int),
    {
        if at < row.len() {
            row.insert(at, Cell::blank());
            row.truncate(cols);
        }
        assert(row@ =~= cells_inserted(start, at as int, k + 1, cols as int));
    }
}

/// Keeps the first `rows` rows of a grid.
pub fn truncate_grid(grid: &mut Vec<Vec<Cell>>, rows: usize)
    ensures
        grid_view(final(grid)@) == grid_truncated(grid_view(old(grid)@), rows as int),
{
    proof {
        lemma_grid_edits(grid@);
    }
    grid.truncate(rows);
    assert(grid_view(grid@) =~= grid_truncated(grid_view(old(grid)@), rows as int));
}

} // verus!
