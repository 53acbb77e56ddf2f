//! The grid container: a flat, row-major vector of cells with fixed
//! dimensions, read and written by `(row, column)`.

use vstd::prelude::*;
use crate::cell::Cell;
use crate::grid::{around, blank, height, hit, in_grid, is_grid, width, with_cell, Grid};

verus! {

/// Where the cell `(r, c)` of a grid with `columns` columns sits in the
/// row-major backing vector.
pub open spec fn flat_index(columns: int, r: int, c: int) -> int {
    r * columns + c
}

/// Every cell of the grid has a place in the backing vector.
pub proof fn lemma_flat_index_in_range(rows: int, columns: int, r: int, c: int)
    by (nonlinear_arith)
    requires
        0 <= r < rows,
        0 <= c < columns,
    ensures
        0 <= flat_index(columns, r, c) < rows * columns,
{
}

/// No two cells share a place in the backing vector.
pub proof fn lemma_flat_index_injective(columns: int, r1: int, c1: int, r2: int, c2: int)
    by (nonlinear_arith)
    requires
        0 <= c1 < columns,
        0 <= c2 < columns,
        flat_index(columns, r1, c1) == flat_index(columns, r2, c2),
    ensures
        r1 == r2,
        c1 == c2,
{
}

/// Every place of the backing vector belongs to a cell of the grid: the one
/// in row `i / columns`, column `i % columns`.
pub proof fn lemma_flat_index_onto(rows: int, columns: int, i: int)
    by (nonlinear_arith)
    requires
        0 < columns,
        0 <= i < rows * columns,
    ensures
        0 <= i / columns < rows,
        0 <= i % columns < columns,
        flat_index(columns, i / columns, i % columns) == i,
{
}

/// A rectangular grid of cells whose dimensions are fixed when it is made.
#[derive(Debug, PartialEq, Eq)]
pub struct Table {
    rows: usize,
    columns: usize,
    cells: Vec<Cell>,
}

impl View for Table {
    type V = Grid;

    closed spec fn view(&self) -> Grid {
        Seq::new(
            self.rows as nat,
            |r: int|
                Seq::new(
                    self.columns as nat,
                    |c: int| self.cells@[flat_index(self.columns as int, r, c)],
                ),
        )
    }
}

impl Table {
    /// The representation invariant: both dimensions are positive and the
    /// backing vector holds exactly one cell per position.
    pub closed spec fn wf(&self) -> bool {
        &&& self.rows > 0
        &&& self.columns > 0
        &&& self.cells.len() == self.rows * self.columns
    }

    /// A well-formed table is seen as a grid.
    pub proof fn lemma_view_is_grid(&self)
        requires
            self.wf(),
        ensures
            is_grid(self@),
    {
    }

    /// Makes a table of `rows` by `columns` cells, all `Void`.
    pub fn new(rows: usize, columns: usize) -> (table: Table)
        requires
            rows > 0,
            columns > 0,
            rows * columns <= usize::MAX,
        ensures
            table.wf(),
            table@ == blank(rows as int, columns as int),
    {
        let total: usize = rows * columns;
        let mut cells: Vec<Cell> = Vec::new();
        while cells.len() < total
            invariant
                cells@.len() <= total,
                forall|i: int| 0 <= i < cells@.len() ==> cells@[i] == Cell::Void,
            decreases total - cells@.len(),
        {
            cells.push(Cell::Void);
        }
        let table = Table { rows, columns, cells };
        proof {
            assert forall|r: int, c: int| 0 <= r < rows && 0 <= c < columns implies table.cells@[flat_index(
                columns as int,
                r,
                c,
            )] == Cell::Void by {
                lemma_flat_index_in_range(rows as int, columns as int, r, c);
            }
            assert(table@ =~~= blank(rows as int, columns as int));
        }
        table
    }

    /// Makes the table that `new` makes where the dimensions allow one, and
    /// none where a dimension is zero or the cells are too many to index.
    pub fn try_new(rows: usize, columns: usize) -> (made: Option<Table>)
        ensures
            made.is_some() <==> rows > 0 && columns > 0 && rows * columns <= usize::MAX,
            made matches Some(table) ==> table.wf() && table@ == blank(rows as int, columns as int),
    {
        if rows == 0 || columns == 0 {
            return None;
        }
        match rows.checked_mul(columns) {
            Some(_) => Some(Table::new(rows, columns)),
            None => None,
        }
    }

    /// The dimensions, rows first. Their product is the number of cells, which
    /// the table has in memory, so it fits a `usize`.
    pub fn get_size(&self) -> (size: (usize, usize))
        requires
            self.wf(),
        ensures
            size.0 == height(self@),
            size.1 == width(self@),
            size.0 > 0,
            size.1 > 0,
            size.0 * size.1 <= usize::MAX,
    {
        (self.rows, self.columns)
    }

    /// The cell at `pos`, given as `(row, column)`.
    pub fn get(&self, pos: (usize, usize)) -> (cell: Cell)
        requires
            self.wf(),
            in_grid(self@, pos.0 as int, pos.1 as int),
        ensures
            cell == self@[pos.0 as int][pos.1 as int],
    {
        proof {
            lemma_flat_index_in_range(
                self.rows as int,
                self.columns as int,
                pos.0 as int,
                pos.1 as int,
            );
        }
        self.cells[pos.0 * self.columns + pos.1]
    }

    /// Overwrites the cell at `pos`, given as `(row, column)`, and no other.
    pub fn set(&mut self, pos: (usize, usize), cell: Cell)
        requires
            old(self).wf(),
            in_grid(old(self)@, pos.0 as int, pos.1 as int),
        ensures
            final(self).wf(),
            final(self)@ == with_cell(old(self)@, pos.0 as int, pos.1 as int, cell),
    {
        proof {
            lemma_flat_index_in_range(
                self.rows as int,
                self.columns as int,
                pos.0 as int,
                pos.1 as int,
            );
        }
        let at: usize = pos.0 * self.columns + pos.1;
        self.cells.set(at, cell);
        proof {
            let before = old(self)@;
            let after = self@;
            let expected = with_cell(before, pos.0 as int, pos.1 as int, cell);
            assert forall|r: int, c: int|
                0 <= r < self.rows && 0 <= c < self.columns implies after[r][c] == expected[r][c] by {
                lemma_flat_index_in_range(self.rows as int, self.columns as int, r, c);
                if flat_index(self.columns as int, r, c) == at {
                    lemma_flat_index_injective(
                        self.columns as int,
                        r,
                        c,
                        pos.0 as int,
                        pos.1 as int,
                    );
                }
            }
            assert(after =~~= expected);
        }
    }

    /// One if the position `down - 1` rows below and `right - 1` columns
    /// right of `pos` lies in the table and holds `cell`, zero otherwise.
    /// With `down` and `right` from zero to two this reaches `pos` and its
    /// eight neighbours without ever forming a coordinate below zero.
    fn hit_near(&self, pos: (usize, usize), down: usize, right: usize, cell: Cell) -> (n: usize)
        requires
            self.wf(),
            in_grid(self@, pos.0 as int, pos.1 as int),
            down <= 2,
            right <= 2,
        ensures
            n == hit(self@, pos.0 + down - 1, pos.1 + right - 1, cell),
    {
        if (down == 0 && pos.0 == 0) || (right == 0 && pos.1 == 0) {
            return 0;
        }
        if (down == 2 && pos.0 + 1 >= self.rows) || (right == 2 && pos.1 + 1 >= self.columns) {
            return 0;
        }
        let row: usize = pos.0 + down - 1;
        let column: usize = pos.1 + right - 1;
        if self.get((row, column)) == cell {
            1
        } else {
            0
        }
    }

    /// Counts the cells equal to `cell` among the up to eight neighbours of
    /// `pos`. Neighbours that would fall off an edge are not there: they are
    /// neither read nor counted.
    pub fn around_count(&self, pos: (usize, usize), cell: Cell) -> (count: usize)
        requires
            self.wf(),
            in_grid(self@, pos.0 as int, pos.1 as int),
        ensures
            count == around(self@, pos.0 as int, pos.1 as int, cell),
    {
        let above: usize = self.hit_near(pos, 0, 0, cell) + self.hit_near(pos, 0, 1, cell)
            + self.hit_near(pos, 0, 2, cell);
        let beside: usize = self.hit_near(pos, 1, 0, cell) + self.hit_near(pos, 1, 2, cell);
        let below: usize = self.hit_near(pos, 2, 0, cell) + self.hit_near(pos, 2, 1, cell)
            + self.hit_near(pos, 2, 2, cell);
        above + beside + below
    }
}

} // verus!
