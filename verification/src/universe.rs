//! The universe: the cell buffer that is queried, toggled and advanced.

use vstd::prelude::*;
use crate::cell::Cell;
use crate::grid::Grid;

verus! {

/// Why a universe could not be made.
#[derive(Clone, Copy, Debug, PartialEq, Eq, Structural)]
pub enum GridError {
    /// The width or the height asked for was zero.
    InvalidDimensions,
}

/// The pattern that a universe starts with unless another is asked for: a
/// cell is alive where its place in the buffer is a multiple of 2 or of 7.
pub open spec fn default_pattern(i: int) -> Cell {
    if i % 2 == 0 || i % 7 == 0 {
        Cell::Alive
    } else {
        Cell::Dead
    }
}

/// The state that the default pattern gives to the cell stored at `i`.
pub fn default_seed(i: usize) -> (cell: Cell)
    ensures
        cell == default_pattern(i as int),
{
    if i % 2 == 0 || i % 7 == 0 {
        Cell::Alive
    } else {
        Cell::Dead
    }
}

/// `coordinate + offset`, wrapped around an edge `extent` cells away.
fn wrap(coordinate: u32, offset: u32, extent: u32) -> (wrapped: u32)
    requires
        extent > 0,
    ensures
        wrapped == (coordinate + offset) % (extent as int),
{
    ((coordinate as u64 + offset as u64) % (extent as u64)) as u32
}

/// A grid of cells that lives from one generation to the next.
///
/// The dimensions are fixed when the universe is made. The buffer always
/// holds `width * height` cells, row by row.
///
/// Coordinates are a row below `height` and a column below `width`. The
/// functions that take coordinates ask for them in their contracts and report
/// no error: to pass others is the caller's mistake.
pub struct Universe {
    width: u32,
    height: u32,
    cells: Vec<Cell>,
}

impl View for Universe {
    type V = Grid;

    closed spec fn view(&self) -> Grid {
        Grid { width: self.width as nat, height: self.height as nat, cells: self.cells@ }
    }
}

impl Grid {
    /// The offsets in the order in which they are walked: one step back,
    /// wrapped around an edge `extent` cells away, then none, then one step
    /// on.
    spec fn offset(extent: nat, k: int) -> int {
        if k == 0 {
            extent - 1
        } else if k == 1 {
            0
        } else {
            1
        }
    }

    /// What the first `n` offset pairs add to the neighbor count of
    /// `(row, column)`, the pairs taken row offset by row offset.
    spec fn counted(self, row: int, column: int, n: int) -> int
        decreases n,
    {
        if n <= 0 {
            0
        } else {
            self.counted(row, column, n - 1) + self.neighbor(
                row,
                column,
                Self::offset(self.height, (n - 1) / 3),
                Self::offset(self.width, (n - 1) % 3),
            )
        }
    }

    /// All nine offset pairs together give the neighbor count.
    proof fn lemma_counted_all(self, row: int, column: int)
        ensures
            self.counted(row, column, 9) == self.live_neighbors(row, column),
    {
        reveal_with_fuel(Grid::counted, 10);
    }
}

impl Universe {
    #[verifier::type_invariant]
    spec fn well_formed(self) -> bool {
        self@.wf()
    }

    /// A universe of `width` columns and `height` rows whose cell at place
    /// `i` of the buffer is `seed(i)`.
    fn seeded<F: Fn(usize) -> Cell>(width: u32, height: u32, seed: F) -> (universe: Universe)
        requires
            width > 0,
            height > 0,
            width * height <= usize::MAX,
            forall|i: usize| i < width * height ==> call_requires(seed, (i,)),
        ensures
            universe@.width == width,
            universe@.height == height,
            universe@.wf(),
            universe@.seeded_by(seed),
    {
        assert(0 <= width * height) by (nonlinear_arith);
        let total: usize = width as usize * height as usize;
        let mut cells: Vec<Cell> = Vec::with_capacity(total);
        let mut i: usize = 0;
        while i < total
            invariant
                i <= total,
                total == width * height,
                cells@.len() == i,
                forall|k: usize| k < total ==> call_requires(seed, (k,)),
                forall|k: int|
                    0 <= k < i ==> call_ensures(seed, (k as usize,), #[trigger] cells@[k]),
            decreases total - i,
        {
            cells.push(seed(i));
            i = i + 1;
        }
        Universe { width, height, cells }
    }

    /// The universe that a run starts with: 64 columns, 64 rows, and the
    /// default pattern.
    pub fn new() -> (universe: Universe)
        ensures
            universe@ == (Grid {
                width: 64,
                height: 64,
                cells: Seq::new(64 * 64, |i: int| default_pattern(i)),
            }),
            universe@.wf(),
    {
        let universe: Universe = Self::seeded(64, 64, default_seed);
        assert(universe@.cells =~= Seq::new(64 * 64, |i: int| default_pattern(i)));
        universe
    }

    /// A universe of `width` columns and `height` rows in which `seed`
    /// decides the state of every cell: the cell at `(row, column)` is
    /// `seed(row * width + column)`.
    ///
    /// A universe has at least one row and one column. The number of its
    /// cells has to fit the machine's index type.
    pub fn with_seed<F: Fn(usize) -> Cell>(width: u32, height: u32, seed: F) -> (result: Result<
        Universe,
        GridError,
    >)
        requires
            width * height <= usize::MAX,
            forall|i: usize| i < width * height ==> call_requires(seed, (i,)),
        ensures
            width == 0 || height == 0 ==> result == Err::<Universe, GridError>(
                GridError::InvalidDimensions,
            ),
            width > 0 && height > 0 ==> {
                &&& result matches Ok(universe)
                &&& universe@.width == width
                &&& universe@.height == height
                &&& universe@.wf()
                &&& universe@.seeded_by(seed)
            },
    {
        if width == 0 || height == 0 {
            Err(GridError::InvalidDimensions)
        } else {
            Ok(Self::seeded(width, height, seed))
        }
    }

    /// The place in the buffer of the cell at `(row, column)`.
    fn get_index(&self, row: u32, column: u32) -> (idx: usize)
        requires
            self@.in_bounds(row as int, column as int),
        ensures
            idx == self@.index(row as int, column as int),
            idx < self@.cells.len(),
    {
        proof {
            use_type_invariant(self);
            self@.lemma_index_in_range(row as int, column as int);
            assert(self.cells.len() == self.cells@.len());
            assert(0 <= row * self.width) by (nonlinear_arith);
        }
        row as usize * self.width as usize + column as usize
    }

    /// The number of columns.
    pub fn width(&self) -> (width: u32)
        ensures
            width == self@.width,
            self@.wf(),
    {
        proof {
            use_type_invariant(self);
        }
        self.width
    }

    /// The number of rows.
    pub fn height(&self) -> (height: u32)
        ensures
            height == self@.height,
            self@.wf(),
    {
        proof {
            use_type_invariant(self);
        }
        self.height
    }

    /// The whole buffer, row by row, for reading.
    pub fn cells(&self) -> (cells: &[Cell])
        ensures
            cells@ == self@.cells,
            cells@.len() == self@.width * self@.height,
    {
        proof {
            use_type_invariant(self);
        }
        self.cells.as_slice()
    }

    /// The state of the cell at `(row, column)`.
    pub fn cell(&self, row: u32, column: u32) -> (cell: Cell)
        requires
            self@.in_bounds(row as int, column as int),
        ensures
            cell == self@.cell(row as int, column as int),
    {
        let idx: usize = self.get_index(row, column);
        self.cells[idx]
    }

    /// A picture of the universe as text: one line for each row, one glyph
    /// for each cell, and a line feed at the end of every line.
    pub fn render_text(&self) -> (text: String)
        ensures
            text@ == self@.text(),
    {
        proof {
            use_type_invariant(self);
            reveal_strlit("\n");
        }
        let mut text: String = String::new();
        let mut row: u32 = 0;
        while row < self.height
            invariant
                self@.wf(),
                row <= self.height,
                "\n"@ == seq!['\n'],
                text@ == self@.rows_text(row as int),
            decreases self.height - row,
        {
            let ghost above: Seq<char> = text@;
            let mut column: u32 = 0;
            while column < self.width
                invariant
                    self@.wf(),
                    row < self.height,
                    column <= self.width,
                    text@ == above + Seq::new(
                        column as nat,
                        |c: int| self@.cell(row as int, c).glyph(),
                    ),
                decreases self.width - column,
            {
                let cell: Cell = self.cell(row, column);
                text.append(cell.symbol());
                assert(text@ =~= above + Seq::new(
                    (column + 1) as nat,
                    |c: int| self@.cell(row as int, c).glyph(),
                ));
                column = column + 1;
            }
            text.append("\n");
            assert(text@ =~= above + self@.row_text(row as int));
            row = row + 1;
        }
        text
    }

    /// The number of live neighbors of the cell at `(row, column)`, counted
    /// around the edges of the grid.
    pub fn live_neighbor_count(&self, row: u32, column: u32) -> (count: u8)
        requires
            self@.in_bounds(row as int, column as int),
        ensures
            count == self@.live_neighbors(row as int, column as int),
    {
        proof {
            use_type_invariant(self);
        }
        let row_offsets: [u32; 3] = [self.height - 1, 0, 1];
        let column_offsets: [u32; 3] = [self.width - 1, 0, 1];
        let mut count: u8 = 0;
        let mut i: usize = 0;
        while i < 3
            invariant
                i <= 3,
                self@.wf(),
                self@.in_bounds(row as int, column as int),
                forall|k: int| 0 <= k < 3 ==> row_offsets[k] == Grid::offset(self@.height, k),
                forall|k: int| 0 <= k < 3 ==> column_offsets[k] == Grid::offset(self@.width, k),
                count == self@.counted(row as int, column as int, 3 * i),
                count <= 3 * i,
            decreases 3 - i,
        {
            let mut j: usize = 0;
            while j < 3
                invariant
                    i < 3,
                    j <= 3,
                    self@.wf(),
                    self@.in_bounds(row as int, column as int),
                    forall|k: int| 0 <= k < 3 ==> row_offsets[k] == Grid::offset(self@.height, k),
                    forall|k: int| 0 <= k < 3 ==> column_offsets[k] == Grid::offset(self@.width, k),
                    count == self@.counted(row as int, column as int, 3 * i + j),
                    count <= 3 * i + j,
                decreases 3 - j,
            {
                let row_offset: u32 = row_offsets[i];
                let column_offset: u32 = column_offsets[j];
                if !(row_offset == 0 && column_offset == 0) {
                    let neighbor_row: u32 = wrap(row, row_offset, self.height);
                    let neighbor_column: u32 = wrap(column, column_offset, self.width);
                    let idx: usize = self.get_index(neighbor_row, neighbor_column);
                    count = count + self.cells[idx].count();
                }
                j = j + 1;
            }
            i = i + 1;
        }
        proof {
            self@.lemma_counted_all(row as int, column as int);
        }
        count
    }

    /// Flips the cell at `(row, column)` and leaves every other cell as it is.
    pub fn toggle_cell(&mut self, row: u32, column: u32)
        requires
            old(self)@.in_bounds(row as int, column as int),
        ensures
            final(self)@ == old(self)@.toggle(row as int, column as int),
            final(self)@.wf(),
    {
        proof {
            use_type_invariant(&*self);
        }
        let idx: usize = self.get_index(row, column);
        let flipped: Cell = self.cells[idx].toggled();
        self.cells[idx] = flipped;
    }

    /// Advances the universe by one generation.
    ///
    /// Every cell is replaced by its successor under the transition rule. All
    /// successors are computed from the generation that is left behind, into a
    /// buffer of their own, which then takes the place of the old one.
    pub fn tick(&mut self)
        ensures
            final(self)@ == old(self)@.step(),
            final(self)@.wf(),
    {
        proof {
            use_type_invariant(&*self);
        }
        let ghost before: Grid = self@;
        let mut next: Vec<Cell> = Vec::with_capacity(self.cells.len());
        let mut row: u32 = 0;
        while row < self.height
            invariant
                self@ == before,
                before.wf(),
                row <= self.height,
                next@.len() == row * before.width,
                forall|k: int| 0 <= k < next@.len() ==> next@[k] == before.next_cell(k),
            decreases self.height - row,
        {
            let mut column: u32 = 0;
            while column < self.width
                invariant
                    self@ == before,
                    before.wf(),
                    row < self.height,
                    column <= self.width,
                    next@.len() == row * before.width + column,
                    forall|k: int| 0 <= k < next@.len() ==> next@[k] == before.next_cell(k),
                decreases self.width - column,
            {
                let idx: usize = self.get_index(row, column);
                let cell: Cell = self.cells[idx];
                let live_neighbors: u8 = self.live_neighbor_count(row, column);
                proof {
                    before.lemma_index_to_coordinates(row as int, column as int);
                }
                next.push(cell.next(live_neighbors));
                column = column + 1;
            }
            assert((row + 1) * before.width == row * before.width + before.width)
                by (nonlinear_arith);
            row = row + 1;
        }
        assert(next@.len() == before.cells.len()) by (nonlinear_arith)
            requires
                next@.len() == row * before.width,
                row == before.height,
                before.cells.len() == before.width * before.height,
        ;
        assert(next@ =~= before.step().cells);
        self.cells = next;
    }
}

} // verus!
