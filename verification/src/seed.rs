//! Seeding: putting live cells into a table before the first step, either
//! at random or as one of three fixed patterns.

use vstd::prelude::*;
use crate::cell::Cell;
use crate::grid::{height, in_grid, is_grid, width, with_cell, Grid};
use crate::random::gen_range;
use crate::table::Table;

verus! {

/// What to seed a table with.
#[derive(Clone, Copy, Debug, PartialEq, Eq, Structural)]
pub enum FillGrid {
    /// Each cell lives with one chance in three.
    Random,
    /// The five-cell glider.
    Glider,
    /// The lightweight spaceship.
    LightweightSpaceship,
    /// The Gosper glider gun.
    GosperGun,
}

/// The row at which `fill` puts the first row of a pattern.
pub const X_SHIFT: usize = 0;

/// The column at which `fill` puts the first column of a pattern.
pub const Y_SHIFT: usize = 0;

/// How many outcomes a random draw for one cell has. Exactly one of them,
/// the last, brings the cell to life.
pub const DRAWS: usize = 3;

/// The cells of the glider, as `(row, column)` offsets from its origin.
pub open spec fn glider() -> Seq<(usize, usize)> {
    seq![(0, 1), (1, 2), (2, 0), (2, 1), (2, 2)]
}

/// The cells of the lightweight spaceship, as `(row, column)` offsets from
/// its origin.
pub open spec fn lightweight_spaceship() -> Seq<(usize, usize)> {
    seq![(0, 1), (0, 2), (0, 3), (0, 4), (1, 0), (1, 4), (2, 4), (3, 3)]
}

/// The cells of the Gosper glider gun, as `(row, column)` offsets from its
/// origin.
pub open spec fn gosper_gun() -> Seq<(usize, usize)> {
    seq![
        (0, 24),
        (1, 22), (1, 24),
        (2, 12), (2, 13), (2, 20), (2, 21), (2, 34), (2, 35),
        (3, 11), (3, 15), (3, 20), (3, 21), (3, 34), (3, 35),
        (4, 0), (4, 1), (4, 10), (4, 16), (4, 20), (4, 21),
        (5, 0), (5, 1), (5, 10), (5, 14), (5, 16), (5, 17), (5, 22), (5, 24),
        (6, 10), (6, 16), (6, 24),
        (7, 11), (7, 15),
        (8, 12), (8, 13),
    ]
}

/// The cells of a fixed pattern. A random seeding has none.
pub open spec fn pattern(grid: FillGrid) -> Seq<(usize, usize)> {
    match grid {
        FillGrid::Random => Seq::empty(),
        FillGrid::Glider => glider(),
        FillGrid::LightweightSpaceship => lightweight_spaceship(),
        FillGrid::GosperGun => gosper_gun(),
    }
}

/// The offset `offsets[k]`, taken from `origin`, names the cell `(r, c)`.
pub open spec fn lands(
    offsets: Seq<(usize, usize)>,
    k: int,
    origin: (usize, usize),
    r: int,
    c: int,
) -> bool {
    origin.0 + offsets[k].0 == r && origin.1 + offsets[k].1 == c
}

/// One of the first `n` offsets, taken from `origin`, names the cell
/// `(r, c)`.
pub open spec fn covers(
    offsets: Seq<(usize, usize)>,
    n: int,
    origin: (usize, usize),
    r: int,
    c: int,
) -> bool {
    exists|k: int| 0 <= k < n && #[trigger] lands(offsets, k, origin, r, c)
}

/// `g` with every cell live that one of the first `n` offsets names, and
/// every other cell as it was. Offsets that lead off the grid name no cell.
pub open spec fn stamp(g: Grid, offsets: Seq<(usize, usize)>, n: int, origin: (usize, usize)) -> Grid {
    Seq::new(
        g.len(),
        |r: int|
            Seq::new(
                g[0].len(),
                |c: int|
                    if covers(offsets, n, origin, r, c) {
                        Cell::Dyaboo
                    } else {
                        g[r][c]
                    },
            ),
    )
}

/// The offsets of a fixed pattern as a vector.
pub fn pattern_cells(grid: FillGrid) -> (cells: Vec<(usize, usize)>)
    ensures
        cells@ == pattern(grid),
{
    let cells: Vec<(usize, usize)> = match grid {
        FillGrid::Random => Vec::new(),
        FillGrid::Glider => vec![(0, 1), (1, 2), (2, 0), (2, 1), (2, 2)],
        FillGrid::LightweightSpaceship => vec![
            (0, 1), (0, 2), (0, 3), (0, 4), (1, 0), (1, 4), (2, 4), (3, 3),
        ],
        FillGrid::GosperGun => vec![
            (0, 24),
            (1, 22), (1, 24),
            (2, 12), (2, 13), (2, 20), (2, 21), (2, 34), (2, 35),
            (3, 11), (3, 15), (3, 20), (3, 21), (3, 34), (3, 35),
            (4, 0), (4, 1), (4, 10), (4, 16), (4, 20), (4, 21),
            (5, 0), (5, 1), (5, 10), (5, 14), (5, 16), (5, 17), (5, 22), (5, 24),
            (6, 10), (6, 16), (6, 24),
            (7, 11), (7, 15),
            (8, 12), (8, 13),
        ],
    };
    assert(cells@ =~= pattern(grid));
    cells
}

/// Brings to life every cell that an offset names when taken from `origin`.
/// No cell is read and none is emptied; an offset that leads off the table
/// is passed over.
pub fn place(table: &mut Table, offsets: &Vec<(usize, usize)>, origin: (usize, usize))
    requires
        old(table).wf(),
    ensures
        final(table).wf(),
        final(table)@ == stamp(old(table)@, offsets@, offsets@.len() as int, origin),
{
    let (rows, columns) = table.get_size();
    let ghost before = table@;
    proof {
        table.lemma_view_is_grid();
        assert(before =~~= stamp(before, offsets@, 0, origin));
    }
    let mut k: usize = 0;
    while k < offsets.len()
        invariant
            table.wf(),
            is_grid(before),
            rows == height(before),
            columns == width(before),
            k <= offsets.len(),
            table@ == stamp(before, offsets@, k as int, origin),
        decreases offsets.len() - k,
    {
        let (down, right) = offsets[k];
        let ghost earlier = table@;
        let mut named: Option<(usize, usize)> = None;
        if let Some(row) = origin.0.checked_add(down) {
            if let Some(column) = origin.1.checked_add(right) {
                if row < rows && column < columns {
                    named = Some((row, column));
                }
            }
        }
        if let Some(pos) = named {
            table.set(pos, Cell::Dyaboo);
        }
        proof {
            let later = table@;
            let wanted = stamp(before, offsets@, k + 1, origin);
            assert forall|r: int, c: int| in_grid(before, r, c) implies #[trigger] later[r][c]
                == wanted[r][c] by {
                let hit = lands(offsets@, k as int, origin, r, c);
                if covers(offsets@, k as int, origin, r, c) {
                    let j = choose|j: int| 0 <= j < k && #[trigger] lands(offsets@, j, origin, r, c);
                    assert(lands(offsets@, j, origin, r, c));
                    assert(covers(offsets@, k + 1, origin, r, c));
                } else if hit {
                    assert(covers(offsets@, k + 1, origin, r, c));
                } else {
                    if covers(offsets@, k + 1, origin, r, c) {
                        let j = choose|j: int|
                            0 <= j < k + 1 && #[trigger] lands(offsets@, j, origin, r, c);
                        assert(j < k);
                        assert(false);
                    }
                }
            }
            assert(later =~~= wanted);
        }
        k += 1;
    }
}

/// Whether a draw brings a cell to life: the last of the `DRAWS` outcomes
/// does, the others leave the cell alone.
pub open spec fn quickens(draw: int) -> bool {
    draw == DRAWS - 1
}

/// Seeds one cell from a draw that has been made: the cell comes to life
/// if the draw `quickens`, and stays as it is if not.
pub fn sow(table: &mut Table, pos: (usize, usize), draw: usize)
    requires
        old(table).wf(),
        in_grid(old(table)@, pos.0 as int, pos.1 as int),
        draw < DRAWS,
    ensures
        final(table).wf(),
        final(table)@ == if quickens(draw as int) {
            with_cell(old(table)@, pos.0 as int, pos.1 as int, Cell::Dyaboo)
        } else {
            old(table)@
        },
{
    if draw + 1 == DRAWS {
        table.set(pos, Cell::Dyaboo);
    }
}

/// `after` has the shape of `before`, and each of its cells is live or what
/// `before` has there.
pub open spec fn only_quickened(before: Grid, after: Grid) -> bool {
    &&& is_grid(after)
    &&& height(after) == height(before)
    &&& width(after) == width(before)
    &&& forall|r: int, c: int|
        in_grid(before, r, c) ==> #[trigger] after[r][c] == Cell::Dyaboo || after[r][c]
            == before[r][c]
}

/// Seeds a table. A fixed pattern is stamped with its origin at
/// `(X_SHIFT, Y_SHIFT)`. A random seeding makes one draw per cell from the
/// generator of the current thread; which cells it brings to life is open,
/// but it empties none. Either way the table is written and never read.
pub fn fill(table: &mut Table, grid: FillGrid)
    requires
        old(table).wf(),
    ensures
        final(table).wf(),
        only_quickened(old(table)@, final(table)@),
        grid != FillGrid::Random ==> final(table)@ == stamp(
            old(table)@,
            pattern(grid),
            pattern(grid).len() as int,
            (X_SHIFT, Y_SHIFT),
        ),
{
    let ghost before = table@;
    proof {
        table.lemma_view_is_grid();
    }
    match grid {
        FillGrid::Random => {
            let (rows, columns) = table.get_size();
            let mut rng = rand::thread_rng();
            let mut row: usize = 0;
            while row < rows
                invariant
                    table.wf(),
                    is_grid(before),
                    rows == height(before),
                    columns == width(before),
                    only_quickened(before, table@),
                decreases rows - row,
            {
                let mut column: usize = 0;
                while column < columns
                    invariant
                        table.wf(),
                        is_grid(before),
                        rows == height(before),
                        columns == width(before),
                        row < rows,
                        only_quickened(before, table@),
                    decreases columns - column,
                {
                    let draw = gen_range(&mut rng, 0, DRAWS);
                    let ghost earlier = table@;
                    sow(table, (row, column), draw);
                    proof {
                        crate::grid::lemma_write_then_read(
                            earlier,
                            row as int,
                            column as int,
                            Cell::Dyaboo,
                        );
                    }
                    column += 1;
                }
                row += 1;
            }
        },
        _ => {
            let cells = pattern_cells(grid);
            place(table, &cells, (X_SHIFT, Y_SHIFT));
        },
    }
}

} // verus!
