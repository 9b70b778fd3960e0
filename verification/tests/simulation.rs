use game_of_life::{CellGrid, CellState, DiffEntry, GridError, Simulation};

fn prepared(width: usize, height: usize, alive: &[(usize, usize)]) -> CellGrid {
    let mut grid = CellGrid::new(width, height).unwrap();
    for &(x, y) in alive {
        grid.set(x, y, CellState::Alive).unwrap();
    }
    grid
}

fn living(sim: &Simulation) -> Vec<(usize, usize)> {
    let (width, height) = sim.dimensions();
    let mut found: Vec<(usize, usize)> = Vec::new();
    for y in 0..height {
        for x in 0..width {
            if sim.cell_at(x, y) == Ok(CellState::Alive) {
                found.push((x, y));
            }
        }
    }
    found
}

#[test]
fn initialize_refuses_zero_width() {
    assert_eq!(Simulation::initialize(0, 8, 3, 1).err(), Some(GridError::InvalidConfiguration));
}

#[test]
fn initialize_refuses_zero_height() {
    assert_eq!(Simulation::initialize(8, 0, 3, 1).err(), Some(GridError::InvalidConfiguration));
}

#[test]
fn initialize_sets_the_dimensions() {
    let sim = Simulation::initialize(80, 60, 3, 1).unwrap();
    assert_eq!(sim.dimensions(), (80, 60));
}

#[test]
fn initialize_repeats_with_the_seed() {
    let a = Simulation::initialize(30, 30, 3, 99).unwrap();
    let b = Simulation::initialize(30, 30, 3, 99).unwrap();
    assert_eq!(living(&a), living(&b));
    assert!(!living(&a).is_empty());
}

#[test]
fn initialize_with_one_in_one_fills_the_grid() {
    let sim = Simulation::initialize(4, 3, 1, 5).unwrap();
    assert_eq!(living(&sim).len(), 12);
}

#[test]
fn cell_at_outside_is_out_of_bounds() {
    let sim = Simulation::initialize(4, 3, 3, 5).unwrap();
    assert_eq!(sim.cell_at(4, 0), Err(GridError::OutOfBounds));
    assert_eq!(sim.cell_at(0, 3), Err(GridError::OutOfBounds));
    assert_eq!(sim.cell_at(usize::MAX, usize::MAX), Err(GridError::OutOfBounds));
}

#[test]
fn cell_at_reads_the_current_generation() {
    let sim = Simulation::from_grid(prepared(4, 3, &[(3, 2)]), 3, 0);
    assert_eq!(sim.cell_at(3, 2), Ok(CellState::Alive));
    assert_eq!(sim.cell_at(0, 0), Ok(CellState::Dead));
    assert_eq!(sim.dimensions(), (4, 3));
}

#[test]
fn tick_of_a_dead_grid_reports_nothing() {
    let mut sim = Simulation::from_grid(prepared(6, 6, &[]), 3, 0);
    assert_eq!(sim.tick(), Vec::<DiffEntry>::new());
    assert_eq!(living(&sim), Vec::<(usize, usize)>::new());
    assert_eq!(sim.tick(), Vec::<DiffEntry>::new());
    assert_eq!(living(&sim), Vec::<(usize, usize)>::new());
}

#[test]
fn tick_kills_an_isolated_cell() {
    let mut sim = Simulation::from_grid(prepared(5, 5, &[(2, 2)]), 3, 0);
    assert_eq!(sim.tick(), Vec::<DiffEntry>::new());
    assert_eq!(sim.cell_at(2, 2), Ok(CellState::Dead));
    assert_eq!(living(&sim), Vec::<(usize, usize)>::new());
}

#[test]
fn tick_keeps_a_block() {
    let mut sim = Simulation::from_grid(prepared(6, 6, &[(2, 2), (3, 2), (2, 3), (3, 3)]), 3, 0);
    let first = sim.tick();
    assert_eq!(
        first,
        vec![
            DiffEntry { x: 2, y: 2, state: CellState::Alive },
            DiffEntry { x: 3, y: 2, state: CellState::Alive },
            DiffEntry { x: 2, y: 3, state: CellState::Alive },
            DiffEntry { x: 3, y: 3, state: CellState::Alive },
        ]
    );
    assert_eq!(living(&sim), vec![(2, 2), (3, 2), (2, 3), (3, 3)]);
    assert_eq!(sim.tick(), Vec::<DiffEntry>::new());
    assert_eq!(living(&sim), vec![(2, 2), (3, 2), (2, 3), (3, 3)]);
}

#[test]
fn tick_turns_a_blinker() {
    let mut sim = Simulation::from_grid(prepared(5, 5, &[(1, 0), (1, 1), (1, 2)]), 3, 0);
    let first = sim.tick();
    assert_eq!(living(&sim), vec![(0, 1), (1, 1), (2, 1)]);
    assert_eq!(
        first,
        vec![
            DiffEntry { x: 0, y: 1, state: CellState::Alive },
            DiffEntry { x: 1, y: 1, state: CellState::Alive },
            DiffEntry { x: 2, y: 1, state: CellState::Alive },
        ]
    );
    let second = sim.tick();
    assert_eq!(living(&sim), vec![(1, 0), (1, 1), (1, 2)]);
    assert_eq!(
        second,
        vec![
            DiffEntry { x: 1, y: 0, state: CellState::Alive },
            DiffEntry { x: 0, y: 1, state: CellState::Dead },
            DiffEntry { x: 2, y: 1, state: CellState::Dead },
            DiffEntry { x: 1, y: 2, state: CellState::Alive },
        ]
    );
}

#[test]
fn first_tick_reports_every_live_cell() {
    let mut sim = Simulation::initialize(25, 20, 3, 1234).unwrap();
    let changes = sim.tick();
    let alive = living(&sim);
    assert_eq!(changes.len(), alive.len());
    for (entry, cell) in changes.iter().zip(alive.iter()) {
        assert_eq!(entry.state, CellState::Alive);
        assert_eq!((entry.x, entry.y), *cell);
    }
}

#[test]
fn reseed_then_tick_reports_every_live_cell() {
    let mut sim = Simulation::initialize(25, 20, 3, 77).unwrap();
    sim.tick();
    sim.tick();
    sim.reseed();
    assert_eq!(sim.dimensions(), (25, 20));
    let changes = sim.tick();
    let alive = living(&sim);
    assert_eq!(changes.len(), alive.len());
    for (entry, cell) in changes.iter().zip(alive.iter()) {
        assert_eq!(entry.state, CellState::Alive);
        assert_eq!((entry.x, entry.y), *cell);
    }
}

#[test]
fn reseed_keeps_live_cells_and_dimensions() {
    let mut sim = Simulation::from_grid(prepared(8, 8, &[(1, 1), (6, 6), (3, 4)]), 4, 11);
    sim.reseed();
    assert_eq!(sim.dimensions(), (8, 8));
    assert_eq!(sim.cell_at(1, 1), Ok(CellState::Alive));
    assert_eq!(sim.cell_at(6, 6), Ok(CellState::Alive));
    assert_eq!(sim.cell_at(3, 4), Ok(CellState::Alive));
}

#[test]
fn reseed_with_one_in_one_fills_the_grid() {
    let mut sim = Simulation::from_grid(prepared(3, 3, &[]), 1, 11);
    sim.reseed();
    assert_eq!(living(&sim).len(), 9);
    let changes = sim.tick();
    assert_eq!(living(&sim), vec![(0, 0), (2, 0), (0, 2), (2, 2)]);
    assert_eq!(changes.len(), 4);
}

#[test]
fn reseed_repeats_with_the_seed() {
    let mut a = Simulation::from_grid(prepared(16, 16, &[]), 3, 2024);
    let mut b = Simulation::from_grid(prepared(16, 16, &[]), 3, 2024);
    a.reseed();
    b.reseed();
    assert_eq!(living(&a), living(&b));
}
