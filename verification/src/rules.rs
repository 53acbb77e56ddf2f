//! The birth/survival rule and the step from one generation to the next.

use vstd::prelude::*;
use crate::cell::Cell;
use crate::grid::{around, height, in_grid, is_grid, width, Grid};
use crate::table::Table;

verus! {

/// What a cell becomes, given how many of its neighbours are live: an empty
/// cell with exactly three comes to life, a live cell with two or three
/// stays, every other cell is empty.
pub open spec fn successor(cell: Cell, live: int) -> Cell {
    match cell {
        Cell::Void => if live == 3 {
            Cell::Dyaboo
        } else {
            Cell::Void
        },
        Cell::Dyaboo => if live < 2 || live > 3 {
            Cell::Void
        } else {
            Cell::Dyaboo
        },
    }
}

/// The generation after `g`: every cell is the successor of the cell that
/// `g` has there, counted against the neighbours that `g` has there.
pub open spec fn next_generation(g: Grid) -> Grid {
    Seq::new(
        g.len(),
        |r: int|
            Seq::new(g[0].len(), |c: int| successor(g[r][c], around(g, r, c, Cell::Dyaboo))),
    )
}

/// Applies the rule to one cell.
pub fn next_state(cell: Cell, live: usize) -> (next: Cell)
    ensures
        next == successor(cell, live as int),
{
    match cell {
        Cell::Void => {
            if live == 3 {
                Cell::Dyaboo
            } else {
                Cell::Void
            }
        },
        Cell::Dyaboo => {
            if live > 3 || live < 2 {
                Cell::Void
            } else {
                Cell::Dyaboo
            }
        },
    }
}

/// Builds the next generation in a fresh table. `table` is only read, so
/// every count is taken from the generation before.
pub fn evolve(table: &Table) -> (next: Table)
    requires
        table.wf(),
    ensures
        next.wf(),
        next@ == next_generation(table@),
{
    let (rows, columns) = table.get_size();
    proof {
        table.lemma_view_is_grid();
    }
    let ghost before = table@;
    let mut updated = Table::new(rows, columns);
    let mut row: usize = 0;
    while row < rows
        invariant
            table.wf(),
            before == table@,
            is_grid(before),
            rows == height(before),
            columns == width(before),
            updated.wf(),
            height(updated@) == rows,
            width(updated@) == columns,
            is_grid(updated@),
            row <= rows,
            forall|r: int, c: int|
                0 <= r < row && 0 <= c < columns ==> #[trigger] updated@[r][c] == successor(
                    before[r][c],
                    around(before, r, c, Cell::Dyaboo),
                ),
        decreases rows - row,
    {
        let mut column: usize = 0;
        while column < columns
            invariant
                table.wf(),
                before == table@,
                is_grid(before),
                rows == height(before),
                columns == width(before),
                updated.wf(),
                height(updated@) == rows,
                width(updated@) == columns,
                is_grid(updated@),
                row < rows,
                column <= columns,
                forall|r: int, c: int|
                    0 <= r < row && 0 <= c < columns ==> #[trigger] updated@[r][c] == successor(
                        before[r][c],
                        around(before, r, c, Cell::Dyaboo),
                    ),
                forall|c: int|
                    0 <= c < column ==> #[trigger] updated@[row as int][c] == successor(
                        before[row as int][c],
                        around(before, row as int, c, Cell::Dyaboo),
                    ),
            decreases columns - column,
        {
            let count = table.around_count((row, column), Cell::Dyaboo);
            let next = next_state(table.get((row, column)), count);
            let ghost earlier = updated@;
            updated.set((row, column), next);
            proof {
                crate::grid::lemma_write_then_read(earlier, row as int, column as int, next);
            }
            column += 1;
        }
        row += 1;
    }
    proof {
        assert(updated@ =~~= next_generation(before));
    }
    updated
}

/// The successor of every cell of a grid is a cell of the next generation,
/// which has the shape of the grid.
pub proof fn lemma_next_generation_shape(g: Grid)
    requires
        is_grid(g),
    ensures
        is_grid(next_generation(g)),
        height(next_generation(g)) == height(g),
        width(next_generation(g)) == width(g),
        forall|r: int, c: int|
            in_grid(g, r, c) ==> #[trigger] next_generation(g)[r][c] == successor(
                g[r][c],
                around(g, r, c, Cell::Dyaboo),
            ),
{
}

/// Nothing is born in an empty grid: where every cell is `Void`, the next
/// generation is the same grid.
pub proof fn lemma_empty_stays_empty(g: Grid)
    requires
        is_grid(g),
        forall|r: int, c: int| in_grid(g, r, c) ==> #[trigger] g[r][c] == Cell::Void,
    ensures
        next_generation(g) == g,
{
    let n = next_generation(g);
    assert forall|r: int, c: int| in_grid(g, r, c) implies #[trigger] n[r][c] == g[r][c] by {
        assert(around(g, r, c, Cell::Dyaboo) == 0);
    }
    assert(n =~~= g);
}

/// A live cell with no live neighbour is empty in the next generation.
pub proof fn lemma_lonely_cell_dies(g: Grid, r: int, c: int)
    requires
        is_grid(g),
        in_grid(g, r, c),
        g[r][c] == Cell::Dyaboo,
        around(g, r, c, Cell::Dyaboo) == 0,
    ensures
        next_generation(g)[r][c] == Cell::Void,
{
}

/// `(i, j)` is one of the four cells of the two-by-two block whose upper
/// left cell is `(r, c)`.
pub open spec fn in_block(r: int, c: int, i: int, j: int) -> bool {
    r <= i <= r + 1 && c <= j <= c + 1
}

/// A two-by-two block of live cells that touches no edge, in a grid that is
/// empty elsewhere, is a still life: each of its cells has exactly three
/// live neighbours, every empty cell has at most two, and the next
/// generation is the same grid.
pub proof fn lemma_block_is_still(g: Grid, r: int, c: int)
    requires
        is_grid(g),
        1 <= r,
        r + 2 < height(g),
        1 <= c,
        c + 2 < width(g),
        forall|i: int, j: int|
            in_grid(g, i, j) ==> #[trigger] g[i][j] == if in_block(r, c, i, j) {
                Cell::Dyaboo
            } else {
                Cell::Void
            },
    ensures
        forall|i: int, j: int|
            in_block(r, c, i, j) ==> #[trigger] around(g, i, j, Cell::Dyaboo) == 3,
        forall|i: int, j: int|
            in_grid(g, i, j) && !in_block(r, c, i, j) ==> #[trigger] around(g, i, j, Cell::Dyaboo)
                <= 2,
        next_generation(g) == g,
{
    assert forall|i: int, j: int| in_block(r, c, i, j) implies #[trigger] around(
        g,
        i,
        j,
        Cell::Dyaboo,
    ) == 3 by {
        lemma_block_counts(g, r, c, i, j);
    }
    assert forall|i: int, j: int| in_grid(g, i, j) && !in_block(r, c, i, j) implies #[trigger] around(
        g,
        i,
        j,
        Cell::Dyaboo,
    ) <= 2 by {
        lemma_block_counts(g, r, c, i, j);
    }
    let n = next_generation(g);
    assert forall|i: int, j: int| in_grid(g, i, j) implies #[trigger] n[i][j] == g[i][j] by {
        lemma_block_counts(g, r, c, i, j);
    }
    assert(n =~~= g);
}

/// The live neighbours of one cell of a grid that holds a single block.
proof fn lemma_block_counts(g: Grid, r: int, c: int, i: int, j: int)
    requires
        is_grid(g),
        1 <= r,
        r + 2 < height(g),
        1 <= c,
        c + 2 < width(g),
        forall|i: int, j: int|
            in_grid(g, i, j) ==> #[trigger] g[i][j] == if in_block(r, c, i, j) {
                Cell::Dyaboo
            } else {
                Cell::Void
            },
        in_grid(g, i, j),
    ensures
        in_block(r, c, i, j) ==> around(g, i, j, Cell::Dyaboo) == 3,
        !in_block(r, c, i, j) ==> around(g, i, j, Cell::Dyaboo) <= 2,
{
}

/// `(i, j)` is one of the three cells of the horizontal bar centred on
/// `(r, c)`.
pub open spec fn in_row_bar(r: int, c: int, i: int, j: int) -> bool {
    i == r && c - 1 <= j <= c + 1
}

/// `(i, j)` is one of the three cells of the vertical bar centred on
/// `(r, c)`.
pub open spec fn in_column_bar(r: int, c: int, i: int, j: int) -> bool {
    j == c && r - 1 <= i <= r + 1
}

/// `g` holds the horizontal bar centred on `(r, c)` and is empty elsewhere.
pub open spec fn is_row_bar(g: Grid, r: int, c: int) -> bool {
    forall|i: int, j: int|
        in_grid(g, i, j) ==> #[trigger] g[i][j] == if in_row_bar(r, c, i, j) {
            Cell::Dyaboo
        } else {
            Cell::Void
        }
}

/// `g` holds the vertical bar centred on `(r, c)` and is empty elsewhere.
pub open spec fn is_column_bar(g: Grid, r: int, c: int) -> bool {
    forall|i: int, j: int|
        in_grid(g, i, j) ==> #[trigger] g[i][j] == if in_column_bar(r, c, i, j) {
            Cell::Dyaboo
        } else {
            Cell::Void
        }
}

/// One step turns a horizontal bar of three into the vertical bar with the
/// same centre, provided both bars fit into the grid.
pub proof fn lemma_row_bar_turns(g: Grid, r: int, c: int)
    requires
        is_grid(g),
        1 <= r < height(g) - 1,
        1 <= c < width(g) - 1,
        is_row_bar(g, r, c),
    ensures
        is_grid(next_generation(g)),
        height(next_generation(g)) == height(g),
        width(next_generation(g)) == width(g),
        is_column_bar(next_generation(g), r, c),
{
}

/// One step turns a vertical bar of three into the horizontal bar with the
/// same centre, provided both bars fit into the grid.
pub proof fn lemma_column_bar_turns(g: Grid, r: int, c: int)
    requires
        is_grid(g),
        1 <= r < height(g) - 1,
        1 <= c < width(g) - 1,
        is_column_bar(g, r, c),
    ensures
        is_grid(next_generation(g)),
        height(next_generation(g)) == height(g),
        width(next_generation(g)) == width(g),
        is_row_bar(next_generation(g), r, c),
{
}

/// The blinker has period two: a horizontal bar of three live cells, in a
/// grid that is empty elsewhere and leaves room above and below the bar,
/// is a vertical bar after one step and the first grid again after two.
pub proof fn lemma_blinker_oscillates(g: Grid, r: int, c: int)
    requires
        is_grid(g),
        1 <= r < height(g) - 1,
        1 <= c < width(g) - 1,
        is_row_bar(g, r, c),
    ensures
        is_column_bar(next_generation(g), r, c),
        next_generation(g) != g,
        next_generation(next_generation(g)) == g,
{
    let once = next_generation(g);
    let twice = next_generation(once);
    lemma_row_bar_turns(g, r, c);
    lemma_column_bar_turns(once, r, c);
    assert(once[r - 1][c] == Cell::Dyaboo);
    assert(g[r - 1][c] == Cell::Void);
    assert forall|i: int, j: int| in_grid(g, i, j) implies #[trigger] twice[i][j] == g[i][j] by {
    }
    assert(twice =~~= g);
}

} // verus!
