use game_of_life::{apply_rule, count_live_neighbors, step, CellGrid, CellState};

fn grid_with(width: usize, height: usize, alive: &[(usize, usize)]) -> CellGrid {
    let mut grid = CellGrid::new(width, height).unwrap();
    for &(x, y) in alive {
        grid.set(x, y, CellState::Alive).unwrap();
    }
    grid
}

fn alive_cells(grid: &CellGrid) -> Vec<(usize, usize)> {
    let mut found: Vec<(usize, usize)> = Vec::new();
    for y in 0..grid.height() {
        for x in 0..grid.width() {
            if grid.get(x, y) == Ok(CellState::Alive) {
                found.push((x, y));
            }
        }
    }
    found
}

fn next_of(grid: &CellGrid) -> CellGrid {
    let mut next = grid.blank_like();
    step(grid, &mut next);
    next
}

#[test]
fn live_cell_with_too_few_neighbors_dies() {
    assert_eq!(apply_rule(CellState::Alive, 0), CellState::Dead);
    assert_eq!(apply_rule(CellState::Alive, 1), CellState::Dead);
}

#[test]
fn live_cell_with_two_or_three_neighbors_survives() {
    assert_eq!(apply_rule(CellState::Alive, 2), CellState::Alive);
    assert_eq!(apply_rule(CellState::Alive, 3), CellState::Alive);
}

#[test]
fn live_cell_with_too_many_neighbors_dies() {
    for count in 4..=8 {
        assert_eq!(apply_rule(CellState::Alive, count), CellState::Dead);
    }
}

#[test]
fn dead_cell_with_three_neighbors_is_born() {
    assert_eq!(apply_rule(CellState::Dead, 3), CellState::Alive);
}

#[test]
fn dead_cell_stays_dead_otherwise() {
    for count in [0u8, 1, 2, 4, 5, 6, 7, 8] {
        assert_eq!(apply_rule(CellState::Dead, count), CellState::Dead);
    }
}

#[test]
fn neighbors_of_an_inner_cell() {
    let grid = grid_with(3, 3, &[(0, 0), (1, 0), (2, 0), (0, 1), (2, 1), (0, 2), (1, 2), (2, 2)]);
    assert_eq!(count_live_neighbors(&grid, 1, 1), 8);
}

#[test]
fn a_cell_is_not_its_own_neighbor() {
    let grid = grid_with(3, 3, &[(1, 1)]);
    assert_eq!(count_live_neighbors(&grid, 1, 1), 0);
    assert_eq!(count_live_neighbors(&grid, 0, 0), 1);
    assert_eq!(count_live_neighbors(&grid, 2, 1), 1);
}

#[test]
fn neighbors_at_the_corners_do_not_wrap() {
    let grid = grid_with(4, 4, &[(3, 0), (0, 3), (3, 3), (1, 0), (0, 1), (1, 1)]);
    assert_eq!(count_live_neighbors(&grid, 0, 0), 3);
    assert_eq!(count_live_neighbors(&grid, 3, 3), 0);
    assert_eq!(count_live_neighbors(&grid, 3, 0), 0);
    assert_eq!(count_live_neighbors(&grid, 0, 3), 0);
    assert_eq!(count_live_neighbors(&grid, 2, 0), 3);
}

#[test]
fn neighbors_at_the_edges_do_not_wrap() {
    let grid = grid_with(4, 3, &[(0, 1), (3, 1)]);
    assert_eq!(count_live_neighbors(&grid, 0, 1), 0);
    assert_eq!(count_live_neighbors(&grid, 3, 1), 0);
    assert_eq!(count_live_neighbors(&grid, 3, 0), 1);
    assert_eq!(count_live_neighbors(&grid, 0, 2), 1);
}

#[test]
fn single_cell_grid_has_no_neighbors() {
    let grid = grid_with(1, 1, &[(0, 0)]);
    assert_eq!(count_live_neighbors(&grid, 0, 0), 0);
    let next = next_of(&grid);
    assert_eq!(next.get(0, 0), Ok(CellState::Dead));
}

#[test]
fn one_row_grid_counts_left_and_right_only() {
    let grid = grid_with(5, 1, &[(0, 0), (1, 0), (2, 0), (4, 0)]);
    assert_eq!(count_live_neighbors(&grid, 0, 0), 1);
    assert_eq!(count_live_neighbors(&grid, 1, 0), 2);
    assert_eq!(count_live_neighbors(&grid, 3, 0), 2);
    assert_eq!(count_live_neighbors(&grid, 4, 0), 0);
    let next = next_of(&grid);
    assert_eq!(alive_cells(&next), vec![(1, 0)]);
}

#[test]
fn one_column_grid_counts_up_and_down_only() {
    let grid = grid_with(1, 5, &[(0, 0), (0, 1), (0, 2), (0, 4)]);
    assert_eq!(count_live_neighbors(&grid, 0, 0), 1);
    assert_eq!(count_live_neighbors(&grid, 0, 1), 2);
    assert_eq!(count_live_neighbors(&grid, 0, 3), 2);
    assert_eq!(count_live_neighbors(&grid, 0, 4), 0);
    let next = next_of(&grid);
    assert_eq!(alive_cells(&next), vec![(0, 1)]);
}

#[test]
fn dead_grid_stays_dead() {
    let grid = grid_with(6, 4, &[]);
    let next = next_of(&grid);
    assert_eq!(alive_cells(&next), Vec::<(usize, usize)>::new());
    assert_eq!((next.width(), next.height()), (6, 4));
}

#[test]
fn isolated_cell_dies() {
    let grid = grid_with(5, 5, &[(2, 2)]);
    let next = next_of(&grid);
    assert_eq!(next.get(2, 2), Ok(CellState::Dead));
    assert_eq!(alive_cells(&next), Vec::<(usize, usize)>::new());
}

#[test]
fn block_is_a_still_life() {
    let block = [(2, 2), (3, 2), (2, 3), (3, 3)];
    let grid = grid_with(6, 6, &block);
    let next = next_of(&grid);
    assert_eq!(alive_cells(&next), vec![(2, 2), (3, 2), (2, 3), (3, 3)]);
    let after = next_of(&next);
    assert_eq!(alive_cells(&after), vec![(2, 2), (3, 2), (2, 3), (3, 3)]);
}

#[test]
fn blinker_oscillates() {
    let grid = grid_with(5, 5, &[(1, 0), (1, 1), (1, 2)]);
    let first = next_of(&grid);
    assert_eq!(alive_cells(&first), vec![(0, 1), (1, 1), (2, 1)]);
    let second = next_of(&first);
    assert_eq!(alive_cells(&second), vec![(1, 0), (1, 1), (1, 2)]);
}

#[test]
fn step_leaves_the_current_grid_alone() {
    let grid = grid_with(5, 5, &[(1, 0), (1, 1), (1, 2)]);
    let mut next = grid_with(5, 5, &[(4, 4), (0, 0)]);
    step(&grid, &mut next);
    assert_eq!(alive_cells(&grid), vec![(1, 0), (1, 1), (1, 2)]);
    assert_eq!(alive_cells(&next), vec![(0, 1), (1, 1), (2, 1)]);
}

#[test]
fn crowded_cell_dies_and_corner_is_born() {
    let grid = grid_with(3, 3, &[(0, 0), (1, 0), (2, 0), (0, 1), (1, 1)]);
    let next = next_of(&grid);
    assert_eq!(alive_cells(&next), vec![(0, 0), (2, 0), (0, 1), (2, 1)]);
}

#[test]
fn block_in_a_corner_is_a_still_life() {
    let grid = grid_with(4, 4, &[(0, 0), (1, 0), (0, 1), (1, 1)]);
    let next = next_of(&grid);
    assert_eq!(alive_cells(&next), vec![(0, 0), (1, 0), (0, 1), (1, 1)]);
}
