//! What holds of every grid: the shape that a step keeps, the fate of single
//! cells, the way the edges meet, and the patterns that stand still or
//! oscillate.

use vstd::prelude::*;
use crate::cell::Cell;
use crate::grid::Grid;

verus! {

/// The coordinate before `x` on a ring of `extent` cells: the one before the
/// first is the last.
pub open spec fn before(extent: int, x: int) -> int {
    if x == 0 {
        extent - 1
    } else {
        x - 1
    }
}

/// The coordinate after `x` on a ring of `extent` cells: the one after the
/// last is the first.
pub open spec fn after(extent: int, x: int) -> int {
    if x + 1 == extent {
        0
    } else {
        x + 1
    }
}

/// Adding one of the offsets `extent - 1`, `0` and `1` to a coordinate and
/// wrapping the sum around an edge `extent` cells away gives the coordinate
/// before it, the coordinate itself and the coordinate after it.
pub proof fn lemma_wrap(extent: int, x: int)
    requires
        0 <= x < extent,
    ensures
        (x + (extent - 1)) % extent == before(extent, x),
        (x + 0) % extent == x,
        (x + 1) % extent == after(extent, x),
{
    vstd::arithmetic::div_mod::lemma_small_mod(x as nat, extent as nat);
    if x == 0 {
        vstd::arithmetic::div_mod::lemma_small_mod((extent - 1) as nat, extent as nat);
    } else {
        vstd::arithmetic::div_mod::lemma_small_mod((x - 1) as nat, extent as nat);
        vstd::arithmetic::div_mod::lemma_mod_add_multiples_vanish(x - 1, extent);
    }
    if x + 1 == extent {
        vstd::arithmetic::div_mod::lemma_mod_self_0(extent);
    } else {
        vstd::arithmetic::div_mod::lemma_small_mod((x + 1) as nat, extent as nat);
    }
}

/// A step keeps the dimensions of the grid, and with them the number of its
/// cells.
pub proof fn lemma_step_keeps_shape(grid: Grid)
    requires
        grid.wf(),
    ensures
        grid.step().wf(),
        grid.step().width == grid.width,
        grid.step().height == grid.height,
        grid.step().cells.len() == grid.width * grid.height,
{
}

/// The next state of a cell depends on its own state and on the number of its
/// live neighbors, and on nothing else.
pub proof fn lemma_step_cell(grid: Grid, row: int, column: int)
    requires
        grid.wf(),
        grid.in_bounds(row, column),
    ensures
        grid.step().cell(row, column) == grid.cell(row, column).successor(
            grid.live_neighbors(row, column),
        ),
{
    grid.lemma_index_in_range(row, column);
    grid.lemma_index_to_coordinates(row, column);
}

/// Every offset pair reaches a cell of the grid: the wrapped coordinates lie
/// inside the grid and their place lies inside `cells`. The cell adds 0 or 1
/// to the count.
pub proof fn lemma_neighbor_in_grid(
    grid: Grid,
    row: int,
    column: int,
    row_offset: int,
    column_offset: int,
)
    requires
        grid.wf(),
        grid.in_bounds(row, column),
        0 <= row_offset,
        0 <= column_offset,
    ensures
        ({
            let r = (row + row_offset) % (grid.height as int);
            let c = (column + column_offset) % (grid.width as int);
            &&& grid.in_bounds(r, c)
            &&& 0 <= grid.index(r, c) < grid.cells.len()
        }),
        0 <= grid.neighbor(row, column, row_offset, column_offset) <= 1,
{
    grid.lemma_index_in_range(
        (row + row_offset) % (grid.height as int),
        (column + column_offset) % (grid.width as int),
    );
}

/// No cell has more than eight live neighbors.
pub proof fn lemma_live_neighbors_bounded(grid: Grid, row: int, column: int)
    requires
        grid.wf(),
        grid.in_bounds(row, column),
    ensures
        0 <= grid.live_neighbors(row, column) <= 8,
{
}

/// On a grid with two or more rows and two or more columns the neighbor count
/// of a cell is the number of live cells among the eight around it, where the
/// row above the first is the last, the row below the last is the first, and
/// likewise for the columns.
pub proof fn lemma_eight_neighbors(grid: Grid, row: int, column: int)
    requires
        grid.wf(),
        grid.in_bounds(row, column),
        grid.height >= 2,
        grid.width >= 2,
    ensures
        ({
            let up = before(grid.height as int, row);
            let down = after(grid.height as int, row);
            let left = before(grid.width as int, column);
            let right = after(grid.width as int, column);
            &&& grid.in_bounds(up, left)
            &&& grid.in_bounds(down, right)
            &&& grid.live_neighbors(row, column) == grid.cell(up, left).population() + grid.cell(
                up,
                column,
            ).population() + grid.cell(up, right).population() + grid.cell(row, left).population()
                + grid.cell(row, right).population() + grid.cell(down, left).population()
                + grid.cell(down, column).population() + grid.cell(down, right).population()
        }),
{
    lemma_wrap(grid.height as int, row);
    lemma_wrap(grid.width as int, column);
}

/// On a grid with a single row the row above and the row below a cell are
/// its own row: the cells to its left and to its right count three times each
/// and the cell itself counts once.
pub proof fn lemma_single_row_neighbors(grid: Grid, column: int)
    requires
        grid.wf(),
        grid.height == 1,
        grid.width >= 2,
        0 <= column < grid.width,
    ensures
        grid.live_neighbors(0, column) == 3 * grid.cell(
            0,
            before(grid.width as int, column),
        ).population() + 3 * grid.cell(0, after(grid.width as int, column)).population()
            + grid.cell(0, column).population(),
{
    lemma_wrap(1, 0);
    lemma_wrap(grid.width as int, column);
}

/// On a grid with a single column the column to the left and the column to
/// the right of a cell are its own column: the cells above it and below it
/// count three times each and the cell itself counts once.
pub proof fn lemma_single_column_neighbors(grid: Grid, row: int)
    requires
        grid.wf(),
        grid.width == 1,
        grid.height >= 2,
        0 <= row < grid.height,
    ensures
        grid.live_neighbors(row, 0) == 3 * grid.cell(
            before(grid.height as int, row),
            0,
        ).population() + 3 * grid.cell(after(grid.height as int, row), 0).population()
            + grid.cell(row, 0).population(),
{
    lemma_wrap(1, 0);
    lemma_wrap(grid.height as int, row);
}

/// A grid of one row and one column counts its only cell five times.
pub proof fn lemma_single_cell_grid_neighbors(grid: Grid)
    requires
        grid.wf(),
        grid.width == 1,
        grid.height == 1,
    ensures
        grid.live_neighbors(0, 0) == 5 * grid.cell(0, 0).population(),
{
    lemma_wrap(1, 0);
}

/// Toggling a cell twice gives back the grid as it was.
pub proof fn lemma_toggle_twice(grid: Grid, row: int, column: int)
    requires
        grid.wf(),
        grid.in_bounds(row, column),
    ensures
        grid.toggle(row, column).toggle(row, column) == grid,
{
    grid.lemma_index_in_range(row, column);
    assert(grid.toggle(row, column).toggle(row, column).cells =~= grid.cells);
}

/// Toggling a cell flips that cell and changes no other.
pub proof fn lemma_toggle_touches_one_cell(
    grid: Grid,
    row: int,
    column: int,
    r: int,
    c: int,
)
    requires
        grid.wf(),
        grid.in_bounds(row, column),
        grid.in_bounds(r, c),
    ensures
        grid.toggle(row, column).wf(),
        grid.toggle(row, column).cell(r, c) == (if r == row && c == column {
            grid.cell(r, c).flipped()
        } else {
            grid.cell(r, c)
        }),
{
    grid.lemma_index_in_range(row, column);
    grid.lemma_index_in_range(r, c);
    grid.lemma_index_to_coordinates(row, column);
    grid.lemma_index_to_coordinates(r, c);
}

/// The edges meet: the cell in the last row and the last column is a
/// neighbor of the cell in the first row and the first column. Toggling it
/// raises the neighbor count of that cell when it comes to life and lowers it
/// when it dies, on a grid of any size; on a grid of three or more rows and
/// columns, by exactly one.
pub proof fn lemma_corner_is_adjacent(grid: Grid)
    requires
        grid.wf(),
    ensures
        ({
            let corner = grid.cell(grid.height - 1, grid.width - 1);
            let toggled = grid.toggle(grid.height - 1, grid.width - 1);
            &&& corner is Dead ==> toggled.live_neighbors(0, 0) > grid.live_neighbors(0, 0)
            &&& corner is Alive ==> toggled.live_neighbors(0, 0) < grid.live_neighbors(0, 0)
            &&& grid.height >= 3 && grid.width >= 3 ==> toggled.live_neighbors(0, 0)
                == grid.live_neighbors(0, 0) + corner.flipped().population() - corner.population()
            &&& grid.height >= 3 && grid.width >= 3 ==> toggled.step().cell(0, 0) == grid.cell(
                0,
                0,
            ).successor(toggled.live_neighbors(0, 0))
            &&& corner is Alive ==> grid.live_neighbors(0, 0) >= 1
            &&& grid.cell(0, 0) is Alive ==> grid.live_neighbors(
                grid.height - 1,
                grid.width - 1,
            ) >= 1
        }),
{
    let h = grid.height as int;
    let w = grid.width as int;
    let toggled = grid.toggle(h - 1, w - 1);
    lemma_wrap(h, 0);
    lemma_wrap(w, 0);
    let up: int = (0int + (h - 1)) % h;
    let down: int = (0int + 1) % h;
    let left: int = (0int + (w - 1)) % w;
    let right: int = (0int + 1) % w;
    lemma_toggle_touches_one_cell(grid, h - 1, w - 1, up, left);
    lemma_toggle_touches_one_cell(grid, h - 1, w - 1, up, 0);
    lemma_toggle_touches_one_cell(grid, h - 1, w - 1, up, right);
    lemma_toggle_touches_one_cell(grid, h - 1, w - 1, 0, left);
    lemma_toggle_touches_one_cell(grid, h - 1, w - 1, 0, 0);
    lemma_toggle_touches_one_cell(grid, h - 1, w - 1, 0, right);
    lemma_toggle_touches_one_cell(grid, h - 1, w - 1, down, left);
    lemma_toggle_touches_one_cell(grid, h - 1, w - 1, down, 0);
    lemma_toggle_touches_one_cell(grid, h - 1, w - 1, down, right);
    lemma_step_cell(toggled, 0, 0);
    lemma_wrap(h, h - 1);
    lemma_wrap(w, w - 1);
}

/// Whether every cell of the grid is dead.
pub open spec fn all_dead(grid: Grid) -> bool {
    forall|i: int| 0 <= i < grid.cells.len() ==> grid.cells[i] is Dead
}

/// In a grid of dead cells no cell has a live neighbor.
proof fn lemma_dead_cell_of_dead_grid(grid: Grid, row: int, column: int)
    requires
        grid.wf(),
        all_dead(grid),
        grid.in_bounds(row, column),
    ensures
        grid.live_neighbors(row, column) == 0,
{
    assert forall|r: int, c: int| grid.in_bounds(r, c) implies #[trigger] grid.cell(r, c)
        is Dead by {
        grid.lemma_index_in_range(r, c);
    }
    lemma_wrap(grid.height as int, row);
    lemma_wrap(grid.width as int, column);
}

/// Nothing comes to life in a grid of dead cells: its next generation is the
/// same grid.
pub proof fn lemma_dead_grid_stays_dead(grid: Grid)
    requires
        grid.wf(),
        all_dead(grid),
    ensures
        all_dead(grid.step()),
        grid.step() == grid,
{
    assert forall|i: int| 0 <= i < grid.cells.len() implies grid.step().cells[i] is Dead by {
        grid.lemma_coordinates_of_index(i);
        let row = i / (grid.width as int);
        let column = i % (grid.width as int);
        lemma_dead_cell_of_dead_grid(grid, row, column);
    }
    assert(grid.step().cells =~= grid.cells);
}

/// A live cell with fewer than two live neighbors is dead in the next
/// generation; so is one that has none at all.
pub proof fn lemma_lonely_cell_dies(grid: Grid, row: int, column: int)
    requires
        grid.wf(),
        grid.in_bounds(row, column),
        grid.cell(row, column) is Alive,
        grid.live_neighbors(row, column) < 2,
    ensures
        grid.step().cell(row, column) is Dead,
{
    lemma_step_cell(grid, row, column);
}

/// Whether the cell at `(row, column)` is alive and every other cell of the
/// grid is dead.
pub open spec fn is_single_cell(grid: Grid, row: int, column: int) -> bool {
    forall|r: int, c: int|
        grid.in_bounds(r, c) ==> (#[trigger] grid.cell(r, c) is Alive <==> r == row && c == column)
}

/// The only live cell of a grid is dead in the next generation. On a grid
/// with two or more rows and columns it has no live neighbor and leaves a
/// grid of dead cells behind.
pub proof fn lemma_single_cell_dies(grid: Grid, row: int, column: int)
    requires
        grid.wf(),
        grid.in_bounds(row, column),
        is_single_cell(grid, row, column),
    ensures
        grid.step().cell(row, column) is Dead,
        grid.height >= 2 && grid.width >= 2 ==> grid.live_neighbors(row, column) == 0 && all_dead(
            grid.step(),
        ),
{
    lemma_step_cell(grid, row, column);
    lemma_wrap(grid.height as int, row);
    lemma_wrap(grid.width as int, column);
    if grid.height >= 2 && grid.width >= 2 {
        assert forall|i: int| 0 <= i < grid.cells.len() implies grid.step().cells[i] is Dead by {
            grid.lemma_coordinates_of_index(i);
            let r = i / (grid.width as int);
            let c = i % (grid.width as int);
            lemma_step_cell(grid, r, c);
            lemma_wrap(grid.height as int, r);
            lemma_wrap(grid.width as int, c);
        }
    }
}

/// Two grids of one shape whose cells agree at every pair of coordinates are
/// the same grid.
proof fn lemma_same_cells(a: Grid, b: Grid)
    requires
        a.wf(),
        b.wf(),
        a.width == b.width,
        a.height == b.height,
        forall|r: int, c: int| a.in_bounds(r, c) ==> #[trigger] a.cell(r, c) == b.cell(r, c),
    ensures
        a == b,
{
    assert forall|i: int| 0 <= i < a.cells.len() implies a.cells[i] == b.cells[i] by {
        a.lemma_coordinates_of_index(i);
        let r = i / (a.width as int);
        let c = i % (a.width as int);
        assert(a.cell(r, c) == b.cell(r, c));
    }
    assert(a.cells =~= b.cells);
}

/// Whether `(r, c)` is one of the four cells of the square whose upper left
/// corner is `(top, left)`.
pub open spec fn in_block(top: int, left: int, r: int, c: int) -> bool {
    top <= r <= top + 1 && left <= c <= left + 1
}

/// Whether the live cells of the grid are the four cells of the square whose
/// upper left corner is `(top, left)`, and no others.
pub open spec fn is_block(grid: Grid, top: int, left: int) -> bool {
    forall|r: int, c: int|
        grid.in_bounds(r, c) ==> (#[trigger] grid.cell(r, c) is Alive <==> in_block(
            top,
            left,
            r,
            c,
        ))
}

/// A square of four live cells that touches no edge, alone on a grid of four
/// or more rows and columns, is a still life: each of its cells has the other
/// three as its live neighbors, and the next generation is the same grid.
pub proof fn lemma_block_is_still(grid: Grid, top: int, left: int)
    requires
        grid.wf(),
        grid.height >= 4,
        grid.width >= 4,
        1 <= top,
        top + 2 < grid.height,
        1 <= left,
        left + 2 < grid.width,
        is_block(grid, top, left),
    ensures
        forall|r: int, c: int| in_block(top, left, r, c) ==> grid.live_neighbors(r, c) == 3,
        grid.step() == grid,
{
    assert forall|r: int, c: int| in_block(top, left, r, c) implies grid.live_neighbors(r, c)
        == 3 by {
        lemma_eight_neighbors(grid, r, c);
    }
    assert forall|i: int| 0 <= i < grid.cells.len() implies grid.step().cells[i]
        == grid.cells[i] by {
        grid.lemma_coordinates_of_index(i);
        let r = i / (grid.width as int);
        let c = i % (grid.width as int);
        lemma_eight_neighbors(grid, r, c);
        assert(grid.cells[i] == grid.cell(r, c));
    }
    assert(grid.step().cells =~= grid.cells);
}

/// Whether the live cells of the grid are the three cells in the row `row`
/// around `(row, column)`, and no others.
pub open spec fn is_horizontal_blinker(grid: Grid, row: int, column: int) -> bool {
    forall|r: int, c: int|
        grid.in_bounds(r, c) ==> (#[trigger] grid.cell(r, c) is Alive <==> r == row && column - 1
            <= c <= column + 1)
}

/// Whether the live cells of the grid are the three cells in the column
/// `column` around `(row, column)`, and no others.
pub open spec fn is_vertical_blinker(grid: Grid, row: int, column: int) -> bool {
    forall|r: int, c: int|
        grid.in_bounds(r, c) ==> (#[trigger] grid.cell(r, c) is Alive <==> c == column && row - 1
            <= r <= row + 1)
}

/// Three live cells in a line, alone on a grid of five or more rows and
/// columns and with their middle cell off the edges, turn by a quarter with
/// every step: a horizontal line becomes a vertical one around the same
/// middle cell, and a vertical line a horizontal one.
pub proof fn lemma_blinker_turns(grid: Grid, row: int, column: int)
    requires
        grid.wf(),
        grid.height >= 5,
        grid.width >= 5,
        1 <= row < grid.height - 1,
        1 <= column < grid.width - 1,
    ensures
        is_horizontal_blinker(grid, row, column) ==> is_vertical_blinker(
            grid.step(),
            row,
            column,
        ),
        is_vertical_blinker(grid, row, column) ==> is_horizontal_blinker(
            grid.step(),
            row,
            column,
        ),
{
    let next = grid.step();
    if is_horizontal_blinker(grid, row, column) {
        assert forall|r: int, c: int| next.in_bounds(r, c) implies (#[trigger] next.cell(r, c)
            is Alive <==> c == column && row - 1 <= r <= row + 1) by {
            lemma_step_cell(grid, r, c);
            lemma_eight_neighbors(grid, r, c);
        }
    }
    if is_vertical_blinker(grid, row, column) {
        assert forall|r: int, c: int| next.in_bounds(r, c) implies (#[trigger] next.cell(r, c)
            is Alive <==> r == row && column - 1 <= c <= column + 1) by {
            lemma_step_cell(grid, r, c);
            lemma_eight_neighbors(grid, r, c);
        }
    }
}

/// Such a line of three is back where it was after two steps.
pub proof fn lemma_blinker_has_period_two(grid: Grid, row: int, column: int)
    requires
        grid.wf(),
        grid.height >= 5,
        grid.width >= 5,
        1 <= row < grid.height - 1,
        1 <= column < grid.width - 1,
        is_horizontal_blinker(grid, row, column) || is_vertical_blinker(grid, row, column),
    ensures
        grid.step().step() == grid,
        grid.step() != grid,
{
    let once = grid.step();
    let twice = once.step();
    lemma_blinker_turns(grid, row, column);
    lemma_blinker_turns(once, row, column);
    assert forall|r: int, c: int| twice.in_bounds(r, c) implies #[trigger] twice.cell(r, c)
        == grid.cell(r, c) by {
        assert(twice.cell(r, c) is Alive <==> grid.cell(r, c) is Alive);
    }
    lemma_same_cells(twice, grid);
    assert((grid.cell(row, column + 1) is Alive) != (once.cell(row, column + 1) is Alive));
}

/// The place in the text picture of the character that stands in line `row`
/// at `column`; the column `width` is that of the line feed.
pub open spec fn text_index(grid: Grid, row: int, column: int) -> int {
    row * (grid.width + 1) + column
}

/// The characters of line `row` lie in the text after those of the lines
/// above it and before those of the lines below it.
proof fn lemma_text_index_in_line(grid: Grid, row: int, column: int)
    requires
        0 <= row,
        0 <= column <= grid.width,
    ensures
        row * (grid.width + 1) <= text_index(grid, row, column) < (row + 1) * (grid.width + 1),
        0 <= row * (grid.width + 1),
        (row + 1) * (grid.width + 1) == row * (grid.width + 1) + (grid.width + 1),
{
    let w = grid.width as int;
    assert(0 <= row * (w + 1) && (row + 1) * (w + 1) == row * (w + 1) + (w + 1))
        by (nonlinear_arith)
        requires
            0 <= row,
            0 <= w,
    ;
}

/// What the first `rows` lines of the text picture hold, and where.
proof fn lemma_rows_text_layout(grid: Grid, rows: int)
    requires
        grid.wf(),
        0 <= rows <= grid.height,
    ensures
        grid.rows_text(rows).len() == rows * (grid.width + 1),
        forall|row: int, column: int|
            0 <= row < rows && 0 <= column < grid.width ==> grid.rows_text(
                rows,
            )[#[trigger] text_index(grid, row, column)] == grid.cell(row, column).glyph(),
        forall|row: int|
            0 <= row < rows ==> grid.rows_text(rows)[#[trigger] text_index(
                grid,
                row,
                grid.width as int,
            )] == '\n',
    decreases rows,
{
    if rows > 0 {
        let w = grid.width as int;
        let last = rows - 1;
        let above = grid.rows_text(last);
        let line = grid.row_text(last);
        lemma_rows_text_layout(grid, last);
        lemma_text_index_in_line(grid, last, 0);
        assert forall|row: int, column: int| 0 <= row < rows && 0 <= column <= w implies (above
            + line)[#[trigger] text_index(grid, row, column)] == (if row < last {
            above[text_index(grid, row, column)]
        } else {
            line[column]
        }) by {
            lemma_text_index_in_line(grid, row, column);
            if row < last {
                assert((row + 1) * (w + 1) <= last * (w + 1)) by (nonlinear_arith)
                    requires
                        row + 1 <= last,
                        0 <= w,
                ;
            }
        }
    }
}

/// The text picture has one line for each row. Every line holds the glyphs
/// of the cells of its row, one for each column and none of them a line
/// feed, and ends with a line feed.
pub proof fn lemma_text_layout(grid: Grid)
    requires
        grid.wf(),
    ensures
        grid.text().len() == grid.height * (grid.width + 1),
        forall|row: int, column: int|
            grid.in_bounds(row, column) ==> grid.text()[#[trigger] text_index(grid, row, column)]
                == grid.cell(row, column).glyph(),
        forall|row: int|
            0 <= row < grid.height ==> grid.text()[#[trigger] text_index(
                grid,
                row,
                grid.width as int,
            )] == '\n',
        forall|cell: Cell| #[trigger] cell.glyph() != '\n',
{
    lemma_rows_text_layout(grid, grid.height as int);
}

} // verus!
