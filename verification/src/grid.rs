//! The mathematical picture of a universe: its two dimensions and its cells
//! as one row-major sequence, with the neighbor count and the generation step
//! defined on it.

use vstd::prelude::*;
use crate::cell::Cell;

verus! {

/// A grid of cells, `height` rows of `width` cells each, stored row by row.
pub struct Grid {
    pub width: nat,
    pub height: nat,
    pub cells: Seq<Cell>,
}

impl Grid {
    /// A grid has at least one row and one column, and exactly one cell for
    /// each pair of a row and a column.
    pub open spec fn wf(self) -> bool {
        &&& self.width > 0
        &&& self.height > 0
        &&& self.cells.len() == self.width * self.height
    }

    /// Whether `(row, column)` names a cell of the grid.
    pub open spec fn in_bounds(self, row: int, column: int) -> bool {
        0 <= row < self.height && 0 <= column < self.width
    }

    /// The place of the cell `(row, column)` in `cells`.
    pub open spec fn index(self, row: int, column: int) -> int {
        row * self.width + column
    }

    /// The cell at `(row, column)`.
    pub open spec fn cell(self, row: int, column: int) -> Cell {
        self.cells[self.index(row, column)]
    }

    /// What the cell that lies `row_offset` rows below and `column_offset`
    /// columns to the right of `(row, column)` adds to its neighbor count.
    ///
    /// Both coordinates wrap around the edges of the grid. The offset pair
    /// `(0, 0)` is the cell itself and adds nothing.
    pub open spec fn neighbor(
        self,
        row: int,
        column: int,
        row_offset: int,
        column_offset: int,
    ) -> int {
        if row_offset == 0 && column_offset == 0 {
            0
        } else {
            self.cell(
                (row + row_offset) % (self.height as int),
                (column + column_offset) % (self.width as int),
            ).population()
        }
    }

    /// The number of live neighbors of the cell `(row, column)`.
    ///
    /// The row offsets are `height - 1`, `0` and `1`, the column offsets
    /// `width - 1`, `0` and `1`; an offset of `height - 1` reaches the row
    /// above and an offset of `width - 1` the column to the left. Every pair
    /// of offsets other than `(0, 0)` counts once.
    ///
    /// On a grid with three or more rows and columns these are eight different
    /// cells. With two rows the row above and the row below are the same row,
    /// and its cells count twice. With a single row the offset `height - 1`
    /// is `0`: the row above and the row below are the cell's own row, the
    /// cells to its left and to its right count three times each, and the
    /// cell itself counts once. The same holds of the columns. A grid of one
    /// row and one column counts its only cell five times.
    pub open spec fn live_neighbors(self, row: int, column: int) -> int {
        let up = self.height - 1;
        let left = self.width - 1;
        self.neighbor(row, column, up, left) + self.neighbor(row, column, up, 0)
            + self.neighbor(row, column, up, 1) + self.neighbor(row, column, 0, left)
            + self.neighbor(row, column, 0, 0) + self.neighbor(row, column, 0, 1)
            + self.neighbor(row, column, 1, left) + self.neighbor(row, column, 1, 0)
            + self.neighbor(row, column, 1, 1)
    }

    /// The state in the next generation of the cell stored at `i`.
    pub open spec fn next_cell(self, i: int) -> Cell {
        self.cells[i].successor(
            self.live_neighbors(i / (self.width as int), i % (self.width as int)),
        )
    }

    /// The next generation: every cell is replaced by its successor, and each
    /// successor is computed from the cells of this generation.
    pub open spec fn step(self) -> Grid {
        Grid {
            width: self.width,
            height: self.height,
            cells: Seq::new(self.cells.len(), |i: int| self.next_cell(i)),
        }
    }

    /// The grid with the cell at `(row, column)` flipped and every other cell
    /// as it was.
    pub open spec fn toggle(self, row: int, column: int) -> Grid {
        Grid {
            width: self.width,
            height: self.height,
            cells: self.cells.update(self.index(row, column), self.cell(row, column).flipped()),
        }
    }

    /// The line of text that shows the row `row`: the glyph of each of its
    /// cells, from left to right, and then a line feed.
    pub open spec fn row_text(self, row: int) -> Seq<char> {
        Seq::new(self.width, |column: int| self.cell(row, column).glyph()).push('\n')
    }

    /// The lines of the first `rows` rows, one after the other.
    pub open spec fn rows_text(self, rows: int) -> Seq<char>
        decreases rows,
    {
        if rows <= 0 {
            Seq::empty()
        } else {
            self.rows_text(rows - 1) + self.row_text(rows - 1)
        }
    }

    /// The text picture of the grid: one line for each row, from the top.
    pub open spec fn text(self) -> Seq<char> {
        self.rows_text(self.height as int)
    }

    /// Whether every cell is one that `seed` may return for its place in
    /// `cells`.
    pub open spec fn seeded_by<F: Fn(usize) -> Cell>(self, seed: F) -> bool {
        forall|i: int|
            0 <= i < self.cells.len() ==> call_ensures(
                seed,
                (i as usize,),
                #[trigger] self.cells[i],
            )
    }

    /// The cell `(row, column)` lies inside `cells`.
    pub proof fn lemma_index_in_range(self, row: int, column: int)
        requires
            self.wf(),
            self.in_bounds(row, column),
        ensures
            0 <= self.index(row, column) < self.cells.len(),
    {
        let w = self.width as int;
        let h = self.height as int;
        assert(0 <= row * w && (row + 1) * w <= h * w && (row + 1) * w == row * w + w && h * w
            == w * h) by (nonlinear_arith)
            requires
                0 <= row < h,
                0 < w,
        ;
    }

    /// A place in `cells` determines the row and the column of its cell.
    pub proof fn lemma_index_to_coordinates(self, row: int, column: int)
        requires
            self.wf(),
            self.in_bounds(row, column),
        ensures
            self.index(row, column) / (self.width as int) == row,
            self.index(row, column) % (self.width as int) == column,
    {
        let w = self.width as int;
        vstd::arithmetic::div_mod::lemma_fundamental_div_mod_converse(
            row * w + column,
            w,
            row,
            column,
        );
    }

    /// Every place in `cells` is the place of one cell of the grid.
    pub proof fn lemma_coordinates_of_index(self, i: int)
        requires
            self.wf(),
            0 <= i < self.cells.len(),
        ensures
            self.in_bounds(i / (self.width as int), i % (self.width as int)),
            self.index(i / (self.width as int), i % (self.width as int)) == i,
    {
        let w = self.width as int;
        let h = self.height as int;
        vstd::arithmetic::div_mod::lemma_fundamental_div_mod(i, w);
        assert(0 <= i / w < h && 0 <= i % w < w && w * (i / w) == (i / w) * w) by (nonlinear_arith)
            requires
                0 <= i < w * h,
                0 < w,
                i == w * (i / w) + i % w,
        ;
    }
}

} // verus!
