use torus_life::cell::count_live;
use torus_life::{Cell, Grid, GridError};

/// Builds a grid from rows of text: `#` is a live cell, anything else a
/// dead one.
fn grid_of(rows: &[&str]) -> Grid {
    let height: usize = rows.len();
    let width: usize = rows[0].chars().count();
    let mut cells: Vec<Cell> = Vec::new();
    for row in rows {
        for ch in row.chars() {
            cells.push(if ch == '#' { Cell::Alive } else { Cell::Dead });
        }
    }
    Grid::from_cells(width, height, cells).expect("rows of equal, positive length")
}

/// Writes the cells of a grid as rows of `#` and `.`.
fn rows_of(grid: &Grid) -> Vec<String> {
    let (width, _height, cells) = grid.snapshot();
    cells
        .chunks(width)
        .map(|row| row.iter().map(|c| if *c == Cell::Alive { '#' } else { '.' }).collect())
        .collect()
}

fn live_in(grid: &Grid) -> usize {
    count_live(grid.cells().as_slice())
}

#[test]
fn rule_table_for_live_cell() {
    assert_eq!(Cell::Alive.next_state(0), Cell::Dead);
    assert_eq!(Cell::Alive.next_state(1), Cell::Dead);
    assert_eq!(Cell::Alive.next_state(2), Cell::Alive);
    assert_eq!(Cell::Alive.next_state(3), Cell::Alive);
    assert_eq!(Cell::Alive.next_state(4), Cell::Dead);
    assert_eq!(Cell::Alive.next_state(5), Cell::Dead);
    assert_eq!(Cell::Alive.next_state(6), Cell::Dead);
    assert_eq!(Cell::Alive.next_state(7), Cell::Dead);
    assert_eq!(Cell::Alive.next_state(8), Cell::Dead);
}

#[test]
fn rule_table_for_dead_cell() {
    assert_eq!(Cell::Dead.next_state(0), Cell::Dead);
    assert_eq!(Cell::Dead.next_state(1), Cell::Dead);
    assert_eq!(Cell::Dead.next_state(2), Cell::Dead);
    assert_eq!(Cell::Dead.next_state(3), Cell::Alive);
    assert_eq!(Cell::Dead.next_state(4), Cell::Dead);
    assert_eq!(Cell::Dead.next_state(5), Cell::Dead);
    assert_eq!(Cell::Dead.next_state(6), Cell::Dead);
    assert_eq!(Cell::Dead.next_state(7), Cell::Dead);
    assert_eq!(Cell::Dead.next_state(8), Cell::Dead);
}

#[test]
fn glyphs() {
    assert_eq!(Cell::Dead.glyph(), ' ');
    assert_eq!(Cell::Alive.glyph(), '\u{2588}');
}

#[test]
fn count_live_counts_only_live_cells() {
    assert_eq!(count_live(&[]), 0);
    assert_eq!(count_live(&[Cell::Dead, Cell::Dead]), 0);
    assert_eq!(count_live(&[Cell::Alive, Cell::Dead, Cell::Alive, Cell::Alive]), 3);
    assert_eq!(count_live(&[Cell::Alive; 8]), 8);
}

#[test]
fn from_cells_keeps_dimensions_and_cells() {
    let cells: Vec<Cell> = vec![
        Cell::Alive,
        Cell::Dead,
        Cell::Dead,
        Cell::Dead,
        Cell::Alive,
        Cell::Alive,
    ];
    let grid = Grid::from_cells(3, 2, cells.clone()).unwrap();
    assert_eq!(grid.width(), 3);
    assert_eq!(grid.height(), 2);
    assert_eq!(grid.cells(), &cells);
    let (width, height, shot) = grid.snapshot();
    assert_eq!(width, 3);
    assert_eq!(height, 2);
    assert_eq!(shot, cells.as_slice());
}

#[test]
fn from_cells_rejects_zero_dimensions() {
    assert_eq!(Grid::from_cells(0, 3, vec![]).unwrap_err(), GridError::InvalidConfig);
    assert_eq!(Grid::from_cells(3, 0, vec![]).unwrap_err(), GridError::InvalidConfig);
    assert_eq!(Grid::from_cells(0, 0, vec![]).unwrap_err(), GridError::InvalidConfig);
}

#[test]
fn from_cells_rejects_wrong_number_of_cells() {
    assert_eq!(
        Grid::from_cells(2, 2, vec![Cell::Dead; 3]).unwrap_err(),
        GridError::InvalidConfig
    );
    assert_eq!(
        Grid::from_cells(2, 2, vec![Cell::Dead; 5]).unwrap_err(),
        GridError::InvalidConfig
    );
    assert_eq!(
        Grid::from_cells(2, 3, vec![Cell::Dead; 4]).unwrap_err(),
        GridError::InvalidConfig
    );
    assert_eq!(
        Grid::from_cells(3, 2, vec![Cell::Dead; 8]).unwrap_err(),
        GridError::InvalidConfig
    );
    assert!(Grid::from_cells(2, 2, vec![Cell::Dead; 4]).is_ok());
}

#[test]
fn new_rejects_zero_dimensions_and_percent_above_hundred() {
    assert_eq!(Grid::new(0, 5, 10).unwrap_err(), GridError::InvalidConfig);
    assert_eq!(Grid::new(5, 0, 10).unwrap_err(), GridError::InvalidConfig);
    assert_eq!(Grid::new(5, 5, 101).unwrap_err(), GridError::InvalidConfig);
    assert_eq!(Grid::new(5, 5, 255).unwrap_err(), GridError::InvalidConfig);
    assert!(Grid::new(5, 5, 100).is_ok());
    assert!(Grid::new(1, 1, 0).is_ok());
}

#[test]
fn with_live_count_rejects_more_live_cells_than_cells() {
    assert_eq!(Grid::with_live_count(3, 3, 10).unwrap_err(), GridError::InvalidConfig);
    assert_eq!(Grid::with_live_count(0, 3, 0).unwrap_err(), GridError::InvalidConfig);
    assert_eq!(Grid::with_live_count(3, 0, 0).unwrap_err(), GridError::InvalidConfig);
    assert_eq!(live_in(&Grid::with_live_count(3, 3, 9).unwrap()), 9);
    assert_eq!(live_in(&Grid::with_live_count(3, 3, 4).unwrap()), 4);
}

#[test]
fn length_is_width_times_height_after_new_and_after_steps() {
    let shapes: [(usize, usize); 6] = [(1, 1), (1, 7), (7, 1), (2, 2), (50, 15), (13, 31)];
    for (width, height) in shapes {
        let mut grid = Grid::new(width, height, 40).unwrap();
        assert_eq!(grid.cells().len(), width * height);
        for _ in 0..5 {
            grid.step();
            assert_eq!(grid.width(), width);
            assert_eq!(grid.height(), height);
            assert_eq!(grid.cells().len(), width * height);
        }
    }
}

#[test]
fn live_count_is_the_percentage_rounded_down() {
    assert_eq!(live_in(&Grid::new(50, 15, 15).unwrap()), 112);
    assert_eq!(live_in(&Grid::new(7, 3, 50).unwrap()), 10);
    assert_eq!(live_in(&Grid::new(10, 10, 1).unwrap()), 1);
    assert_eq!(live_in(&Grid::new(3, 3, 11).unwrap()), 0);
    assert_eq!(live_in(&Grid::new(3, 3, 12).unwrap()), 1);
    assert_eq!(live_in(&Grid::new(3, 3, 99).unwrap()), 8);
}

#[test]
fn full_density_is_all_alive_and_zero_density_all_dead() {
    let full = Grid::new(50, 15, 100).unwrap();
    assert_eq!(full.cells().len(), 750);
    assert!(full.cells().iter().all(|c| *c == Cell::Alive));
    let empty = Grid::new(50, 15, 0).unwrap();
    assert_eq!(empty.cells().len(), 750);
    assert!(empty.cells().iter().all(|c| *c == Cell::Dead));
}

#[test]
fn new_places_live_cells_at_random() {
    let grid = Grid::new(100, 100, 50).unwrap();
    assert_eq!(live_in(&grid), 5000);
    let sorted = grid.cells()[..5000].iter().all(|c| *c == Cell::Alive);
    assert!(!sorted, "the live cells were left in front of the dead ones");
}

#[test]
fn corner_of_three_by_three_wraps_to_opposite_edges() {
    let grid = grid_of(&["...", "...", "..."]);
    let around = grid.neighbor_indices(0);
    assert_eq!(around, [2, 1, 6, 3, 7, 4, 8, 5]);
    assert!(around.contains(&2));
    assert!(around.contains(&6));
    assert!(around.contains(&8));
    assert_eq!(grid.neighbor_indices(8), [7, 6, 5, 2, 3, 0, 4, 1]);
    assert_eq!(grid.neighbor_indices(4), [3, 5, 1, 7, 2, 8, 0, 6]);
}

#[test]
fn neighbors_of_every_cell_are_eight_different_cells() {
    let grid = Grid::new(5, 4, 0).unwrap();
    for idx in 0..20 {
        let mut around: Vec<usize> = grid.neighbor_indices(idx).to_vec();
        assert_eq!(around.len(), 8);
        assert!(around.iter().all(|i| *i < 20 && *i != idx));
        around.sort();
        around.dedup();
        assert_eq!(around.len(), 8);
    }
}

#[test]
fn neighbor_indices_on_a_wide_grid() {
    let grid = Grid::new(4, 3, 0).unwrap();
    assert_eq!(grid.neighbor_indices(0), [3, 1, 8, 4, 9, 5, 11, 7]);
    assert_eq!(grid.neighbor_indices(3), [2, 0, 11, 7, 8, 4, 10, 6]);
    assert_eq!(grid.neighbor_indices(5), [4, 6, 1, 9, 2, 10, 0, 8]);
    assert_eq!(grid.neighbor_indices(8), [11, 9, 4, 0, 5, 1, 7, 3]);
    assert_eq!(grid.neighbor_indices(11), [10, 8, 7, 3, 4, 0, 6, 2]);
}

#[test]
fn diagonals_compose_the_two_wraps() {
    let grid = Grid::new(6, 5, 0).unwrap();
    for idx in 0..30 {
        let at = grid.neighbor_indices(idx);
        let (l, r, u, d) = (at[0], at[1], at[2], at[3]);
        let (ru, rd, lu, ld) = (at[4], at[5], at[6], at[7]);
        assert_eq!(grid.neighbor_indices(r)[2], ru);
        assert_eq!(grid.neighbor_indices(u)[1], ru);
        assert_eq!(grid.neighbor_indices(r)[3], rd);
        assert_eq!(grid.neighbor_indices(d)[1], rd);
        assert_eq!(grid.neighbor_indices(l)[2], lu);
        assert_eq!(grid.neighbor_indices(u)[0], lu);
        assert_eq!(grid.neighbor_indices(l)[3], ld);
        assert_eq!(grid.neighbor_indices(d)[0], ld);
        assert_eq!(grid.neighbor_indices(l)[1], idx);
        assert_eq!(grid.neighbor_indices(ru)[7], idx);
    }
}

#[test]
fn neighbors_on_single_row_and_single_column() {
    let row = Grid::new(4, 1, 0).unwrap();
    assert_eq!(row.neighbor_indices(0), [3, 1, 0, 0, 1, 1, 3, 3]);
    assert_eq!(row.neighbor_indices(3), [2, 0, 3, 3, 0, 0, 2, 2]);
    let column = Grid::new(1, 4, 0).unwrap();
    assert_eq!(column.neighbor_indices(0), [0, 0, 3, 1, 3, 1, 3, 1]);
    assert_eq!(column.neighbor_indices(3), [3, 3, 2, 0, 2, 0, 2, 0]);
    let square = Grid::new(2, 2, 0).unwrap();
    assert_eq!(square.neighbor_indices(0), [1, 1, 2, 2, 3, 3, 3, 3]);
}

#[test]
fn get_neigh_reads_the_cells_in_order() {
    let grid = grid_of(&["#..", ".#.", "..#"]);
    let a = Cell::Alive;
    let d = Cell::Dead;
    assert_eq!(grid.get_neigh(0), [d, d, d, d, d, a, a, d]);
    assert_eq!(grid.get_neigh(4), [d, d, d, d, d, a, a, d]);
    assert_eq!(grid.get_neigh(1), [a, d, d, a, a, d, d, d]);
    assert_eq!(grid.get_neigh(6), [a, d, d, a, a, d, d, d]);
}

#[test]
fn get_neigh_twice_gives_the_same() {
    let grid = Grid::new(9, 7, 35).unwrap();
    let before: Vec<Cell> = grid.cells().clone();
    for idx in 0..63 {
        let first = grid.get_neigh(idx);
        let second = grid.get_neigh(idx);
        assert_eq!(first, second);
    }
    assert_eq!(grid.cells(), &before);
}

#[test]
fn column_of_three_on_three_by_three() {
    let mut grid = grid_of(&[".#.", ".#.", ".#."]);
    for idx in [1usize, 4, 7] {
        assert_eq!(count_live(&grid.get_neigh(idx)), 2);
    }
    for idx in [0usize, 2, 3, 5, 6, 8] {
        assert_eq!(count_live(&grid.get_neigh(idx)), 3);
    }
    grid.step();
    assert_eq!(rows_of(&grid), ["###", "###", "###"]);
    grid.step();
    assert_eq!(rows_of(&grid), ["...", "...", "..."]);
}

#[test]
fn blinker_turns() {
    let mut grid = grid_of(&[".....", ".....", ".###.", ".....", "....."]);
    grid.step();
    assert_eq!(rows_of(&grid), [".....", "..#..", "..#..", "..#..", "....."]);
    grid.step();
    assert_eq!(rows_of(&grid), [".....", ".....", ".###.", ".....", "....."]);
}

#[test]
fn block_is_still() {
    let mut grid = grid_of(&["....", ".##.", ".##.", "...."]);
    grid.step();
    assert_eq!(rows_of(&grid), ["....", ".##.", ".##.", "...."]);
}

#[test]
fn blinker_across_the_seam() {
    let mut grid = grid_of(&["##..#", ".....", ".....", ".....", "....."]);
    grid.step();
    assert_eq!(rows_of(&grid), ["#....", "#....", ".....", ".....", "#...."]);
    grid.step();
    assert_eq!(rows_of(&grid), ["##..#", ".....", ".....", ".....", "....."]);
}

#[test]
fn glider_moves_one_cell_diagonally_in_four_steps() {
    let mut grid = grid_of(&[".#....", "..#...", "###...", "......", "......", "......"]);
    for _ in 0..4 {
        grid.step();
    }
    assert_eq!(rows_of(&grid), ["......", "..#...", "...#..", ".###..", "......", "......"]);
    for _ in 0..20 {
        grid.step();
    }
    assert_eq!(rows_of(&grid), [".#....", "..#...", "###...", "......", "......", "......"]);
}

#[test]
fn lonely_and_crowded_cells_die() {
    let mut lonely = grid_of(&[".....", ".....", "..#..", ".....", "....."]);
    lonely.step();
    assert_eq!(live_in(&lonely), 0);
    let mut pair = grid_of(&[".....", ".....", ".##..", ".....", "....."]);
    pair.step();
    assert_eq!(live_in(&pair), 0);
    let mut crowded = grid_of(&[".....", ".###.", ".###.", ".###.", "....."]);
    crowded.step();
    assert_eq!(rows_of(&crowded), ["..#..", ".#.#.", "#...#", ".#.#.", "..#.."]);
}

#[test]
fn single_cell_grid_is_its_own_neighbor() {
    let mut alive = grid_of(&["#"]);
    assert_eq!(alive.neighbor_indices(0), [0; 8]);
    assert_eq!(alive.get_neigh(0), [Cell::Alive; 8]);
    assert_eq!(count_live(&alive.get_neigh(0)), 8);
    alive.step();
    assert_eq!(alive.cells(), &vec![Cell::Dead]);

    let mut dead = grid_of(&["."]);
    assert_eq!(dead.get_neigh(0), [Cell::Dead; 8]);
    assert_eq!(count_live(&dead.get_neigh(0)), 0);
    dead.step();
    assert_eq!(dead.cells(), &vec![Cell::Dead]);
}

#[test]
fn dead_grid_stays_dead() {
    let mut grid = Grid::new(50, 15, 0).unwrap();
    grid.step();
    assert_eq!(grid.width(), 50);
    assert_eq!(grid.height(), 15);
    assert_eq!(grid.cells().len(), 750);
    assert!(grid.cells().iter().all(|c| *c == Cell::Dead));
}

#[test]
fn full_grid_dies_in_one_step() {
    let mut grid = Grid::new(50, 15, 100).unwrap();
    grid.step();
    assert!(grid.cells().iter().all(|c| *c == Cell::Dead));
}

#[test]
fn render_draws_rules_and_rows() {
    let grid = grid_of(&["#.#", ".#."]);
    assert_eq!(grid.render(), "---\n\u{2588} \u{2588}\n \u{2588} \n---\n");
    let one = grid_of(&["."]);
    assert_eq!(one.render(), "-\n \n-\n");
}

#[test]
fn render_of_reference_size() {
    let grid = Grid::new(50, 15, 15).unwrap();
    let text = grid.render();
    let lines: Vec<&str> = text.lines().collect();
    assert_eq!(lines.len(), 17);
    assert_eq!(lines[0], "-".repeat(50));
    assert_eq!(lines[16], "-".repeat(50));
    let mut blocks: usize = 0;
    for line in &lines[1..16] {
        assert_eq!(line.chars().count(), 50);
        blocks += line.chars().filter(|c| *c == '\u{2588}').count();
    }
    assert_eq!(blocks, 112);
    assert!(text.ends_with('\n'));
}
