//! The mathematical model of a grid: a non-empty sequence of rows, all of
//! one non-zero length. Every contract of the crate is stated over it.

use vstd::prelude::*;
use crate::cell::Cell;

verus! {

/// A grid as a value of the logic: `g[r][c]` is the cell in row `r`,
/// column `c`.
pub type Grid = Seq<Seq<Cell>>;

/// `g` is rectangular and has at least one row and one column.
pub open spec fn is_grid(g: Grid) -> bool {
    &&& g.len() > 0
    &&& g[0].len() > 0
    &&& forall|r: int| 0 <= r < g.len() ==> (#[trigger] g[r]).len() == g[0].len()
}

/// The number of rows.
pub open spec fn height(g: Grid) -> int {
    g.len() as int
}

/// The number of columns.
pub open spec fn width(g: Grid) -> int {
    g[0].len() as int
}

/// `(r, c)` names a cell of `g`.
pub open spec fn in_grid(g: Grid, r: int, c: int) -> bool {
    0 <= r < height(g) && 0 <= c < width(g)
}

/// One if `(r, c)` lies in `g`, zero if it falls off an edge.
pub open spec fn present(g: Grid, r: int, c: int) -> int {
    if in_grid(g, r, c) {
        1
    } else {
        0
    }
}

/// One if `(r, c)` lies in `g` and holds `target`, zero otherwise. A
/// position off the grid never counts: the grid does not wrap around.
pub open spec fn hit(g: Grid, r: int, c: int, target: Cell) -> int {
    if in_grid(g, r, c) && g[r][c] == target {
        1
    } else {
        0
    }
}

/// How many of the eight positions adjacent to `(r, c)` lie in `g`.
pub open spec fn candidates(g: Grid, r: int, c: int) -> int {
    present(g, r - 1, c - 1) + present(g, r - 1, c) + present(g, r - 1, c + 1)
        + present(g, r, c - 1) + present(g, r, c + 1)
        + present(g, r + 1, c - 1) + present(g, r + 1, c) + present(g, r + 1, c + 1)
}

/// How many of the eight positions adjacent to `(r, c)` lie in `g` and hold
/// `target`.
pub open spec fn around(g: Grid, r: int, c: int, target: Cell) -> int {
    hit(g, r - 1, c - 1, target) + hit(g, r - 1, c, target) + hit(g, r - 1, c + 1, target)
        + hit(g, r, c - 1, target) + hit(g, r, c + 1, target)
        + hit(g, r + 1, c - 1, target) + hit(g, r + 1, c, target) + hit(g, r + 1, c + 1, target)
}

/// The grid of `rows` by `columns` cells that are all `Void`.
pub open spec fn blank(rows: int, columns: int) -> Grid {
    Seq::new(rows as nat, |r: int| Seq::new(columns as nat, |c: int| Cell::Void))
}

/// `g` with the cell at `(r, c)` replaced by `value`.
pub open spec fn with_cell(g: Grid, r: int, c: int, value: Cell) -> Grid {
    g.update(r, g[r].update(c, value))
}

/// Writing a cell and reading it back gives what was written, every other
/// cell reads as before, and the grid keeps its shape.
pub proof fn lemma_write_then_read(g: Grid, r: int, c: int, value: Cell)
    requires
        is_grid(g),
        in_grid(g, r, c),
    ensures
        with_cell(g, r, c, value)[r][c] == value,
        is_grid(with_cell(g, r, c, value)),
        height(with_cell(g, r, c, value)) == height(g),
        width(with_cell(g, r, c, value)) == width(g),
        forall|i: int, j: int|
            in_grid(g, i, j) && (i != r || j != c) ==> #[trigger] with_cell(g, r, c, value)[i][j]
                == g[i][j],
{
    let w = with_cell(g, r, c, value);
    assert forall|i: int| 0 <= i < w.len() implies (#[trigger] w[i]).len() == w[0].len() by {
        assert(g[i].len() == g[0].len());
        assert(g[r].len() == g[0].len());
    }
}

/// A cell away from every edge has eight neighbours in the grid, a corner
/// cell three, and a cell on one edge only five. The last two need a grid
/// of at least two rows and two columns.
pub proof fn lemma_candidate_counts(g: Grid, r: int, c: int)
    requires
        is_grid(g),
        in_grid(g, r, c),
    ensures
        0 < r < height(g) - 1 && 0 < c < width(g) - 1 ==> candidates(g, r, c) == 8,
        height(g) >= 2 && width(g) >= 2 && (r == 0 || r == height(g) - 1) && (c == 0 || c
            == width(g) - 1) ==> candidates(g, r, c) == 3,
        height(g) >= 2 && width(g) >= 2 && ((r == 0 || r == height(g) - 1) != (c == 0 || c
            == width(g) - 1)) ==> candidates(g, r, c) == 5,
{
}

/// At one position the count for a cell value is zero or one and no more
/// than the count of the position itself, and the counts for the two cell
/// values add up to it.
proof fn lemma_hit_present(g: Grid, r: int, c: int, target: Cell)
    ensures
        0 <= hit(g, r, c, target) <= present(g, r, c) <= 1,
        hit(g, r, c, Cell::Dyaboo) + hit(g, r, c, Cell::Void) == present(g, r, c),
{
}

/// No count exceeds the number of neighbours in the grid, which is at most
/// eight; and since a cell is either `Dyaboo` or `Void`, the two counts add
/// up to that number.
pub proof fn lemma_around_bounds(g: Grid, r: int, c: int, target: Cell)
    ensures
        0 <= around(g, r, c, target) <= candidates(g, r, c) <= 8,
        around(g, r, c, Cell::Dyaboo) + around(g, r, c, Cell::Void) == candidates(g, r, c),
{
    lemma_hit_present(g, r - 1, c - 1, target);
    lemma_hit_present(g, r - 1, c, target);
    lemma_hit_present(g, r - 1, c + 1, target);
    lemma_hit_present(g, r, c - 1, target);
    lemma_hit_present(g, r, c + 1, target);
    lemma_hit_present(g, r + 1, c - 1, target);
    lemma_hit_present(g, r + 1, c, target);
    lemma_hit_present(g, r + 1, c + 1, target);
}

} // verus!
