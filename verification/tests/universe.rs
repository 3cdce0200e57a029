use game_of_life::universe::default_seed;
use game_of_life::{Cell, GridError, Universe};

/// A universe in which exactly the cells at `alive` live.
fn universe_with(width: u32, height: u32, alive: &[(u32, u32)]) -> Universe {
    let seed = |i: usize| {
        let row = (i / width as usize) as u32;
        let column = (i % width as usize) as u32;
        if alive.contains(&(row, column)) {
            Cell::Alive
        } else {
            Cell::Dead
        }
    };
    match Universe::with_seed(width, height, seed) {
        Ok(universe) => universe,
        Err(error) => panic!("no universe of {width} by {height}: {error:?}"),
    }
}

/// The coordinates of the live cells, row by row.
fn live_cells(universe: &Universe) -> Vec<(u32, u32)> {
    let mut alive = Vec::new();
    for row in 0..universe.height() {
        for column in 0..universe.width() {
            if universe.cell(row, column) == Cell::Alive {
                alive.push((row, column));
            }
        }
    }
    alive
}

#[test]
fn default_universe_is_64_by_64() {
    let universe = Universe::new();
    assert_eq!(universe.width(), 64);
    assert_eq!(universe.height(), 64);
    assert_eq!(universe.cells().len(), 64 * 64);
}

#[test]
fn default_universe_lives_at_multiples_of_two_and_seven() {
    let universe = Universe::new();
    let cells = universe.cells();
    assert_eq!(cells[0], Cell::Alive);
    assert_eq!(cells[1], Cell::Dead);
    assert_eq!(cells[2], Cell::Alive);
    assert_eq!(cells[3], Cell::Dead);
    assert_eq!(cells[7], Cell::Alive);
    assert_eq!(cells[9], Cell::Dead);
    assert_eq!(cells[21], Cell::Alive);
    assert_eq!(cells[4095], Cell::Alive);
    assert_eq!(cells[4093], Cell::Dead);
    assert_eq!(universe.cell(1, 1), Cell::Dead);
    assert_eq!(universe.cell(1, 13), Cell::Alive);
    let alive = cells.iter().filter(|cell| **cell == Cell::Alive).count();
    assert_eq!(alive, 2341);
}

#[test]
fn default_seed_follows_the_default_pattern() {
    assert_eq!(default_seed(0), Cell::Alive);
    assert_eq!(default_seed(5), Cell::Dead);
    assert_eq!(default_seed(14), Cell::Alive);
    assert_eq!(default_seed(35), Cell::Alive);
    assert_eq!(default_seed(36), Cell::Alive);
    assert_eq!(default_seed(37), Cell::Dead);
}

#[test]
fn zero_width_is_refused() {
    let result = Universe::with_seed(0, 5, |_| Cell::Dead);
    assert_eq!(result.err(), Some(GridError::InvalidDimensions));
}

#[test]
fn zero_height_is_refused() {
    let result = Universe::with_seed(5, 0, |_| Cell::Dead);
    assert_eq!(result.err(), Some(GridError::InvalidDimensions));
}

#[test]
fn zero_by_zero_is_refused() {
    let result = Universe::with_seed(0, 0, |_| Cell::Alive);
    assert_eq!(result.err(), Some(GridError::InvalidDimensions));
}

#[test]
fn seed_decides_every_cell_by_its_place_in_the_buffer() {
    let seed = |i: usize| if i == 1 || i == 5 { Cell::Alive } else { Cell::Dead };
    let universe = Universe::with_seed(3, 2, seed).ok().unwrap();
    assert_eq!(universe.width(), 3);
    assert_eq!(universe.height(), 2);
    assert_eq!(
        universe.cells(),
        &[Cell::Dead, Cell::Alive, Cell::Dead, Cell::Dead, Cell::Dead, Cell::Alive]
    );
    assert_eq!(universe.cell(0, 1), Cell::Alive);
    assert_eq!(universe.cell(1, 2), Cell::Alive);
    assert_eq!(universe.cell(1, 0), Cell::Dead);
}

#[test]
fn seed_is_asked_once_for_every_place_in_order() {
    let asked = std::cell::RefCell::new(Vec::new());
    let universe = Universe::with_seed(4, 3, |i| {
        asked.borrow_mut().push(i);
        Cell::Dead
    });
    assert!(universe.is_ok());
    assert_eq!(asked.into_inner(), (0..12).collect::<Vec<usize>>());
}

#[test]
fn seed_is_not_asked_for_a_universe_without_cells() {
    let asked = std::cell::Cell::new(false);
    let universe = Universe::with_seed(0, 3, |_| {
        asked.set(true);
        Cell::Alive
    });
    assert_eq!(universe.err(), Some(GridError::InvalidDimensions));
    assert!(!asked.get());
}

#[test]
fn buffer_holds_width_times_height_cells_after_construction_and_after_ticks() {
    for (width, height) in [(1u32, 1u32), (1, 7), (7, 1), (2, 2), (3, 5), (16, 9)] {
        let mut universe = Universe::with_seed(width, height, default_seed).ok().unwrap();
        assert_eq!(universe.cells().len(), (width * height) as usize);
        for _ in 0..5 {
            universe.tick();
            assert_eq!(universe.width(), width);
            assert_eq!(universe.height(), height);
            assert_eq!(universe.cells().len(), (width * height) as usize);
        }
    }
}

#[test]
fn dead_universe_stays_dead() {
    let mut universe = universe_with(6, 4, &[]);
    universe.tick();
    assert!(universe.cells().iter().all(|cell| *cell == Cell::Dead));
    universe.tick();
    assert!(live_cells(&universe).is_empty());
}

#[test]
fn single_live_cell_dies() {
    let mut universe = universe_with(5, 5, &[(2, 3)]);
    assert_eq!(universe.live_neighbor_count(2, 3), 0);
    universe.tick();
    assert_eq!(universe.cell(2, 3), Cell::Dead);
    assert!(live_cells(&universe).is_empty());
}

#[test]
fn crowded_cell_dies_and_a_dead_cell_with_three_neighbors_is_born() {
    // A plus sign: the middle cell has four live neighbors, the four
    // diagonal cells have three each.
    let mut universe = universe_with(7, 7, &[(2, 3), (3, 2), (3, 3), (3, 4), (4, 3)]);
    assert_eq!(universe.live_neighbor_count(3, 3), 4);
    assert_eq!(universe.live_neighbor_count(2, 2), 3);
    universe.tick();
    assert_eq!(universe.cell(3, 3), Cell::Dead);
    assert_eq!(universe.cell(2, 2), Cell::Alive);
    assert_eq!(
        live_cells(&universe),
        vec![(2, 2), (2, 3), (2, 4), (3, 2), (3, 4), (4, 2), (4, 3), (4, 4)]
    );
}

#[test]
fn block_is_a_still_life() {
    let block = [(1, 1), (1, 2), (2, 1), (2, 2)];
    let mut universe = universe_with(4, 4, &block);
    for (row, column) in block {
        assert_eq!(universe.live_neighbor_count(row, column), 3);
    }
    universe.tick();
    assert_eq!(live_cells(&universe), block.to_vec());
    universe.tick();
    assert_eq!(live_cells(&universe), block.to_vec());
}

#[test]
fn block_on_a_larger_grid_is_a_still_life() {
    let block = [(3, 5), (3, 6), (4, 5), (4, 6)];
    let mut universe = universe_with(9, 7, &block);
    for (row, column) in block {
        assert_eq!(universe.live_neighbor_count(row, column), 3);
    }
    universe.tick();
    assert_eq!(live_cells(&universe), block.to_vec());
}

#[test]
fn blinker_turns_and_comes_back() {
    let horizontal = vec![(2, 1), (2, 2), (2, 3)];
    let vertical = vec![(1, 2), (2, 2), (3, 2)];
    let mut universe = universe_with(5, 5, &horizontal);
    universe.tick();
    assert_eq!(live_cells(&universe), vertical);
    universe.tick();
    assert_eq!(live_cells(&universe), horizontal);
}

#[test]
fn blinker_next_to_an_edge_turns_and_comes_back() {
    let horizontal = vec![(1, 0), (1, 1), (1, 2)];
    let vertical = vec![(0, 1), (1, 1), (2, 1)];
    let mut universe = universe_with(5, 6, &horizontal);
    universe.tick();
    assert_eq!(live_cells(&universe), vertical);
    universe.tick();
    assert_eq!(live_cells(&universe), horizontal);
}

#[test]
fn row_of_three_on_three_by_three_meets_itself_around_the_edge() {
    // The row is as wide as the grid, so its ends are neighbors: every live
    // cell has two live neighbors and every dead cell three.
    let mut universe = universe_with(3, 3, &[(1, 0), (1, 1), (1, 2)]);
    assert_eq!(universe.live_neighbor_count(1, 0), 2);
    assert_eq!(universe.live_neighbor_count(0, 0), 3);
    assert_eq!(universe.live_neighbor_count(0, 1), 3);
    universe.tick();
    assert_eq!(universe.cell(0, 1), Cell::Alive);
    assert_eq!(universe.cell(1, 1), Cell::Alive);
    assert_eq!(universe.cell(2, 1), Cell::Alive);
    assert!(universe.cells().iter().all(|cell| *cell == Cell::Alive));
    assert_eq!(universe.live_neighbor_count(1, 1), 8);
    universe.tick();
    assert!(live_cells(&universe).is_empty());
}

#[test]
fn last_corner_is_a_neighbor_of_the_first() {
    let mut universe = universe_with(5, 4, &[(0, 0)]);
    assert_eq!(universe.live_neighbor_count(0, 0), 0);
    assert_eq!(universe.live_neighbor_count(3, 4), 1);
    universe.toggle_cell(3, 4);
    assert_eq!(universe.cell(3, 4), Cell::Alive);
    assert_eq!(universe.live_neighbor_count(0, 0), 1);
    universe.toggle_cell(3, 4);
    assert_eq!(universe.live_neighbor_count(0, 0), 0);
}

#[test]
fn live_corner_keeps_the_first_cell_alive_through_a_tick() {
    let mut alone = universe_with(4, 4, &[(0, 0), (0, 1)]);
    assert_eq!(alone.live_neighbor_count(0, 0), 1);
    alone.tick();
    assert_eq!(alone.cell(0, 0), Cell::Dead);

    let mut joined = universe_with(4, 4, &[(0, 0), (0, 1)]);
    joined.toggle_cell(3, 3);
    assert_eq!(joined.live_neighbor_count(0, 0), 2);
    joined.tick();
    assert_eq!(joined.cell(0, 0), Cell::Alive);
}

#[test]
fn every_edge_wraps() {
    let universe = universe_with(5, 4, &[(0, 2), (3, 2), (1, 0), (1, 4)]);
    // Above the first row lies the last row.
    assert_eq!(universe.live_neighbor_count(0, 2), 1);
    assert_eq!(universe.live_neighbor_count(3, 1), 2);
    // Left of the first column lies the last column.
    assert_eq!(universe.live_neighbor_count(1, 0), 1);
    assert_eq!(universe.live_neighbor_count(2, 4), 2);
    assert_eq!(universe.live_neighbor_count(0, 0), 2);
}

#[test]
fn neighbor_count_reaches_eight() {
    let universe = Universe::with_seed(5, 5, |_| Cell::Alive).ok().unwrap();
    for row in 0..5 {
        for column in 0..5 {
            assert_eq!(universe.live_neighbor_count(row, column), 8);
        }
    }
}

#[test]
fn single_cell_grid_counts_its_cell_five_times() {
    let mut universe = universe_with(1, 1, &[(0, 0)]);
    assert_eq!(universe.live_neighbor_count(0, 0), 5);
    universe.tick();
    assert_eq!(universe.cell(0, 0), Cell::Dead);
    assert_eq!(universe.live_neighbor_count(0, 0), 0);
    universe.tick();
    assert_eq!(universe.cell(0, 0), Cell::Dead);
}

#[test]
fn two_by_two_grid_counts_neighbors_more_than_once() {
    let diagonal = universe_with(2, 2, &[(1, 1)]);
    assert_eq!(diagonal.live_neighbor_count(0, 0), 4);
    assert_eq!(diagonal.live_neighbor_count(0, 1), 2);
    assert_eq!(diagonal.live_neighbor_count(1, 0), 2);
    assert_eq!(diagonal.live_neighbor_count(1, 1), 0);
    let beside = universe_with(2, 2, &[(0, 1)]);
    assert_eq!(beside.live_neighbor_count(0, 0), 2);
    let full = Universe::with_seed(2, 2, |_| Cell::Alive).ok().unwrap();
    assert_eq!(full.live_neighbor_count(0, 0), 8);
}

#[test]
fn single_row_counts_its_neighbors_three_times_and_the_cell_once() {
    let itself = universe_with(3, 1, &[(0, 0)]);
    assert_eq!(itself.live_neighbor_count(0, 0), 1);
    assert_eq!(itself.live_neighbor_count(0, 1), 3);
    assert_eq!(itself.live_neighbor_count(0, 2), 3);
    let pair = universe_with(2, 1, &[(0, 1)]);
    assert_eq!(pair.live_neighbor_count(0, 0), 6);
    assert_eq!(pair.live_neighbor_count(0, 1), 1);
}

#[test]
fn single_column_counts_its_neighbors_three_times_and_the_cell_once() {
    let universe = universe_with(1, 4, &[(1, 0)]);
    assert_eq!(universe.live_neighbor_count(1, 0), 1);
    assert_eq!(universe.live_neighbor_count(0, 0), 3);
    assert_eq!(universe.live_neighbor_count(2, 0), 3);
    assert_eq!(universe.live_neighbor_count(3, 0), 0);
}

#[test]
fn toggle_flips_one_cell_and_no_other() {
    let mut universe = universe_with(4, 3, &[(0, 0), (2, 3)]);
    universe.toggle_cell(1, 2);
    assert_eq!(live_cells(&universe), vec![(0, 0), (1, 2), (2, 3)]);
    universe.toggle_cell(0, 0);
    assert_eq!(live_cells(&universe), vec![(1, 2), (2, 3)]);
}

#[test]
fn toggling_twice_changes_nothing() {
    let mut universe = Universe::with_seed(7, 5, default_seed).ok().unwrap();
    let before = universe.cells().to_vec();
    for (row, column) in [(0, 0), (4, 6), (2, 3), (0, 6), (4, 0)] {
        let cell = universe.cell(row, column);
        universe.toggle_cell(row, column);
        assert_eq!(universe.cell(row, column), cell.toggled());
        universe.toggle_cell(row, column);
        assert_eq!(universe.cell(row, column), cell);
        assert_eq!(universe.cells(), &before[..]);
    }
}

#[test]
fn toggle_does_not_advance_the_generation() {
    let mut universe = universe_with(5, 5, &[(2, 1), (2, 2)]);
    universe.toggle_cell(2, 3);
    assert_eq!(live_cells(&universe), vec![(2, 1), (2, 2), (2, 3)]);
}

#[test]
fn tick_reads_only_the_generation_it_leaves() {
    // Were the first row updated before the second was computed, the
    // vertical line would not come out whole.
    let mut universe = universe_with(5, 5, &[(1, 2), (2, 2), (3, 2)]);
    universe.tick();
    assert_eq!(live_cells(&universe), vec![(2, 1), (2, 2), (2, 3)]);
}

#[test]
fn glider_moves_one_cell_down_and_right_in_four_ticks() {
    let mut universe = universe_with(6, 6, &[(0, 1), (1, 2), (2, 0), (2, 1), (2, 2)]);
    for _ in 0..4 {
        universe.tick();
    }
    assert_eq!(live_cells(&universe), vec![(1, 2), (2, 3), (3, 1), (3, 2), (3, 3)]);
}

#[test]
fn glider_comes_home_around_the_edges() {
    let start = vec![(0, 1), (1, 2), (2, 0), (2, 1), (2, 2)];
    let mut universe = universe_with(6, 6, &start);
    for _ in 0..24 {
        universe.tick();
    }
    assert_eq!(live_cells(&universe), start);
}

#[test]
fn default_universe_follows_the_rule_generation_by_generation() {
    let mut universe = Universe::new();
    let width = universe.width() as i64;
    let height = universe.height() as i64;
    let mut expected: Vec<bool> = universe.cells().iter().map(|cell| *cell == Cell::Alive).collect();
    for _ in 0..10 {
        let mut next = vec![false; expected.len()];
        for row in 0..height {
            for column in 0..width {
                let mut neighbors = 0;
                for (down, right) in
                    [(-1, -1), (-1, 0), (-1, 1), (0, -1), (0, 1), (1, -1), (1, 0), (1, 1)]
                {
                    let r = (row + down).rem_euclid(height);
                    let c = (column + right).rem_euclid(width);
                    if expected[(r * width + c) as usize] {
                        neighbors += 1;
                    }
                }
                let alive = expected[(row * width + column) as usize];
                next[(row * width + column) as usize] =
                    neighbors == 3 || (alive && neighbors == 2);
            }
        }
        expected = next;
        universe.tick();
        let cells: Vec<bool> = universe.cells().iter().map(|cell| *cell == Cell::Alive).collect();
        assert_eq!(cells, expected);
    }
}

#[test]
fn text_shows_one_line_for_each_row() {
    let universe = universe_with(3, 2, &[(0, 1), (1, 2)]);
    assert_eq!(
        universe.render_text(),
        "\u{25FB}\u{25FC}\u{25FB}\n\u{25FB}\u{25FB}\u{25FC}\n"
    );
}

#[test]
fn text_of_a_single_cell() {
    assert_eq!(universe_with(1, 1, &[]).render_text(), "\u{25FB}\n");
    assert_eq!(universe_with(1, 1, &[(0, 0)]).render_text(), "\u{25FC}\n");
}

#[test]
fn text_has_height_lines_of_width_glyphs() {
    for (width, height) in [(1u32, 1u32), (4, 1), (1, 4), (5, 3), (64, 64)] {
        let universe = Universe::with_seed(width, height, default_seed).ok().unwrap();
        let text = universe.render_text();
        assert!(text.ends_with('\n'));
        assert_eq!(text.matches('\n').count(), height as usize);
        let lines: Vec<&str> = text.lines().collect();
        assert_eq!(lines.len(), height as usize);
        for (row, line) in lines.iter().enumerate() {
            assert_eq!(line.chars().count(), width as usize);
            for (column, glyph) in line.chars().enumerate() {
                let cell = universe.cell(row as u32, column as u32);
                assert_eq!(glyph.to_string(), cell.symbol());
            }
        }
    }
}

#[test]
fn text_follows_the_generations() {
    let mut universe = universe_with(5, 5, &[(2, 1), (2, 2), (2, 3)]);
    universe.tick();
    let hollow = "\u{25FB}";
    let solid = "\u{25FC}";
    let empty = format!("{hollow}{hollow}{hollow}{hollow}{hollow}\n");
    let middle = format!("{hollow}{hollow}{solid}{hollow}{hollow}\n");
    assert_eq!(
        universe.render_text(),
        format!("{empty}{middle}{middle}{middle}{empty}")
    );
}
