use conway_life::grid::Grid;
use conway_life::grid::State;
use conway_life::neighbor::alive_neighbor_count;
use conway_life::seeding::seed;
use conway_life::seeding::INIT_ALIVE_COUNT;
use conway_life::seeding::SEED_DOMAIN;
use conway_life::stepper::dead_or_alive;
use conway_life::stepper::Dashboard;

fn census(grid: &Grid) -> usize {
    let mut n = 0;
    for x in -40..40 {
        for y in -40..40 {
            if grid.cell_state(x, y) == State::Alive {
                n += 1;
            }
        }
    }
    n
}

#[test]
fn test_alive_neighbor() {
    let alives = vec![(-1, -1), (-1, 0), (0, -1)];
    assert_eq!(alive_neighbor_count(&(0, 0), &alives), 3);
    assert_eq!(alive_neighbor_count(&(-2, -1), &alives), 2);
}

#[test]
fn corner_counts_at_most_three() {
    // every coordinate around the corner is listed as live, but only the
    // three neighbor slots on the grid may count
    let alives = vec![
        (-41, -41),
        (-41, -40),
        (-41, -39),
        (-40, -41),
        (-40, -39),
        (-39, -41),
        (-39, -40),
        (-39, -39),
    ];
    assert_eq!(alive_neighbor_count(&(-40, -40), &alives), 3);
    assert_eq!(alive_neighbor_count(&(39, 39), &vec![(40, 40), (38, 38), (39, 38), (38, 39)]), 3);
}

#[test]
fn edge_counts_at_most_five() {
    // an edge (non-corner) cell has only five neighbor slots on the grid
    let alives = vec![
        (-41, -1),
        (-41, 0),
        (-41, 1),
        (-40, -1),
        (-40, 1),
        (-39, -1),
        (-39, 0),
        (-39, 1),
    ];
    assert_eq!(alive_neighbor_count(&(-40, 0), &alives), 5);
}

#[test]
fn empty_grid_step_is_noop() {
    let empty: Vec<(i32, i32)> = vec![];
    let mut grid = Grid::from_seed(&empty);
    let mut db = Dashboard::default();
    dead_or_alive(&mut db, &mut grid);
    dead_or_alive(&mut db, &mut grid);
    assert_eq!(db.round, 0);
    assert_eq!(db.survival, 0);
    assert_eq!(census(&grid), 0);
}

#[test]
fn extinction_freezes_counters() {
    // two lone neighbors die in the first step; later ticks change nothing
    let mut grid = Grid::from_seed(&vec![(0, 0), (1, 0)]);
    let mut db = Dashboard::default();
    dead_or_alive(&mut db, &mut grid);
    assert_eq!(db.round, 1);
    assert_eq!(db.survival, 0);
    dead_or_alive(&mut db, &mut grid);
    dead_or_alive(&mut db, &mut grid);
    assert_eq!(db.round, 1);
    assert_eq!(db.survival, 0);
    assert_eq!(census(&grid), 0);
}

#[test]
fn single_live_cell_dies() {
    // underpopulation kills the center; no dead cell has three neighbors
    let mut grid = Grid::from_seed(&vec![(0, 0)]);
    let mut db = Dashboard::default();
    dead_or_alive(&mut db, &mut grid);
    assert_eq!(db.round, 1);
    assert_eq!(db.survival, 0);
    assert_eq!(grid.cell_state(0, 0), State::Dead);
    assert_eq!(census(&grid), 0);
}

#[test]
fn block_is_still() {
    // a 2x2 block is a still life: every live cell has three live neighbors
    let block = vec![(0, 0), (1, 0), (0, 1), (1, 1)];
    let mut grid = Grid::from_seed(&block);
    let mut db = Dashboard::default();
    for _ in 0..3 {
        dead_or_alive(&mut db, &mut grid);
    }
    assert_eq!(db.round, 3);
    assert_eq!(db.survival, 4);
    for &(x, y) in &block {
        assert_eq!(grid.cell_state(x, y), State::Alive);
    }
    assert_eq!(census(&grid), 4);
}

#[test]
fn glider_translates_after_four_steps() {
    let base = vec![(1, 0), (2, 1), (0, 2), (1, 2), (2, 2)];
    let mut grid = Grid::from_seed(&base);
    let mut db = Dashboard::default();
    for _ in 0..4 {
        dead_or_alive(&mut db, &mut grid);
    }
    assert_eq!(db.round, 4);
    assert_eq!(db.survival, 5);
    for &(x, y) in &base {
        assert_eq!(grid.cell_state(x + 1, y + 1), State::Alive);
    }
    assert_eq!(census(&grid), 5);
}

#[test]
fn survival_matches_census() {
    let mut grid = Grid::from_seed(&vec![(0, 0), (1, 0), (0, 1), (1, 1), (5, 5), (7, 7), (-3, 2)]);
    let mut db = Dashboard::default();
    dead_or_alive(&mut db, &mut grid);
    assert_eq!(db.survival, census(&grid));
    dead_or_alive(&mut db, &mut grid);
    assert_eq!(db.survival, census(&grid));
}

#[test]
fn from_seed_marks_exactly_the_seed() {
    let coords = vec![(3, 4), (-7, 12), (0, 0), (39, -40)];
    let grid = Grid::from_seed(&coords);
    for &(x, y) in &coords {
        assert_eq!(grid.cell_state(x, y), State::Alive);
    }
    assert_eq!(census(&grid), 4);
}

#[test]
fn seed_has_exact_cardinality_and_range() {
    let v = seed(INIT_ALIVE_COUNT).unwrap();
    assert_eq!(v.len(), INIT_ALIVE_COUNT);
    for &(x, y) in &v {
        assert!(0 <= x && x < 40);
        assert!(0 <= y && y < 40);
    }
    let mut sorted = v.clone();
    sorted.sort();
    sorted.dedup();
    assert_eq!(sorted.len(), INIT_ALIVE_COUNT);
}

#[test]
fn seed_rejects_oversized_target() {
    assert!(seed(SEED_DOMAIN + 1).is_none());
    assert_eq!(seed(0).unwrap().len(), 0);
    assert_eq!(seed(5).unwrap().len(), 5);
}

#[test]
fn dashboard_starts_at_zero() {
    let db = Dashboard::default();
    assert_eq!(db.round, 0);
    assert_eq!(db.survival, 0);
}
