use hexlife::coordinate::HexCoordinate;
use hexlife::engine::survives;
use hexlife::grid::HexGrid;

fn at(x: i32, y: i32) -> HexCoordinate {
    HexCoordinate::new(x, y)
}

fn grid_with(radius: i32, alive: &[(i32, i32)]) -> HexGrid {
    let mut g = HexGrid::new(radius).unwrap();
    for (x, y) in alive {
        g.set(at(*x, *y), true);
    }
    g
}

fn live_cells(g: &HexGrid) -> Vec<HexCoordinate> {
    g.iterate().iter().filter(|cell| cell.1).map(|cell| cell.0).collect()
}

#[test]
fn rule_table() {
    for count in -1..8 {
        assert_eq!(survives(true, count), count == 2 || count == 3);
        assert_eq!(survives(false, count), count == 3);
    }
}

#[test]
fn interior_is_one_ring_short_of_the_grid() {
    let g = HexGrid::new(4).unwrap();
    assert!(g.is_interior(at(0, 0)));
    assert!(g.is_interior(at(2, -2)));
    assert!(g.is_interior(at(-1, 2)));
    assert!(!g.is_interior(at(3, 0)));
    assert!(!g.is_interior(at(-3, 3)));
    assert!(!g.is_interior(at(4, 0)));
    assert!(!g.is_interior(at(i32::MAX, 0)));
    let single = HexGrid::new(1).unwrap();
    assert!(!single.is_interior(at(0, 0)));
}

#[test]
fn count_of_an_interior_cell() {
    let g = grid_with(5, &[(0, 1), (1, 0), (1, -1), (0, -1), (2, 0), (0, 0)]);
    assert_eq!(g.neighbor_alive_count(at(0, 0)), 4);
    assert_eq!(g.neighbor_alive_count(at(1, 0)), 4);
    assert_eq!(g.neighbor_alive_count(at(-1, 0)), 2);
    assert_eq!(g.neighbor_alive_count(at(-1, 1)), 2);
    assert_eq!(g.neighbor_alive_count(at(-2, 0)), 0);
    let full = grid_with(3, &[(0, 1), (1, 0), (1, -1), (0, -1), (-1, 0), (-1, 1)]);
    assert_eq!(full.neighbor_alive_count(at(0, 0)), 6);
}

#[test]
fn count_of_a_boundary_cell_is_zero() {
    let mut g = HexGrid::new(3).unwrap();
    g.randomize(&vec![true; 19]);
    assert_eq!(g.neighbor_alive_count(at(0, 0)), 6);
    assert_eq!(g.neighbor_alive_count(at(1, 0)), 6);
    assert_eq!(g.neighbor_alive_count(at(2, 0)), 0);
    assert_eq!(g.neighbor_alive_count(at(1, 1)), 0);
    assert_eq!(g.neighbor_alive_count(at(3, 0)), 0);
    assert_eq!(g.neighbor_alive_count(at(i32::MIN, i32::MIN)), 0);
}

#[test]
fn lone_live_cell_dies() {
    let mut g = grid_with(5, &[(0, 0)]);
    assert_eq!(g.neighbor_alive_count(at(0, 0)), 0);
    g.tick();
    assert_eq!(g.get(at(0, 0)), Ok(false));
    assert_eq!(g, HexGrid::new(5).unwrap());
}

#[test]
fn live_cell_with_two_live_neighbors_survives() {
    let mut g = grid_with(5, &[(0, 0), (0, 1), (1, 0)]);
    assert_eq!(g.neighbor_alive_count(at(0, 0)), 2);
    g.tick();
    assert_eq!(g.get(at(0, 0)), Ok(true));
}

#[test]
fn dead_cell_with_two_live_neighbors_stays_dead() {
    let mut g = grid_with(5, &[(0, 1), (1, 0)]);
    assert_eq!(g.neighbor_alive_count(at(0, 0)), 2);
    g.tick();
    assert_eq!(g.get(at(0, 0)), Ok(false));
}

#[test]
fn dead_cell_with_three_live_neighbors_is_born() {
    let mut g = grid_with(5, &[(0, 1), (1, 0), (1, -1)]);
    assert_eq!(g.neighbor_alive_count(at(0, 0)), 3);
    g.tick();
    assert_eq!(g.get(at(0, 0)), Ok(true));
}

#[test]
fn live_cell_with_three_live_neighbors_survives() {
    let mut g = grid_with(5, &[(0, 0), (0, 1), (1, -1), (-1, 0)]);
    assert_eq!(g.neighbor_alive_count(at(0, 0)), 3);
    g.tick();
    assert_eq!(g.get(at(0, 0)), Ok(true));
}

#[test]
fn live_cell_with_four_or_more_live_neighbors_dies() {
    let around = [(0, 1), (1, 0), (1, -1), (0, -1), (-1, 0), (-1, 1)];
    for n in 4..7 {
        let mut alive = vec![(0, 0)];
        alive.extend_from_slice(&around[..n]);
        let mut g = grid_with(5, &alive);
        assert_eq!(g.neighbor_alive_count(at(0, 0)), n as i32);
        g.tick();
        assert_eq!(g.get(at(0, 0)), Ok(false));
    }
}

#[test]
fn tick_reads_one_generation() {
    // Three cells in a triangle: each has two live neighbours and survives,
    // and no dead cell touches all three.
    let mut g = grid_with(5, &[(0, 0), (1, 0), (0, 1)]);
    g.tick();
    assert_eq!(live_cells(&g), vec![at(0, 0), at(0, 1), at(1, 0)]);
    g.tick();
    assert_eq!(live_cells(&g), vec![at(0, 0), at(0, 1), at(1, 0)]);
}

#[test]
fn tick_exact_next_generation() {
    // A row of three: the ends have one live neighbour and die, the middle
    // has two and survives, and no dead cell has three live neighbours.
    let mut g = grid_with(5, &[(-1, 0), (0, 0), (1, 0)]);
    g.tick();
    assert_eq!(live_cells(&g), vec![at(0, 0)]);
    g.tick();
    assert_eq!(live_cells(&g), Vec::<HexCoordinate>::new());
}

#[test]
fn tick_births_around_a_bent_row_of_three() {
    // (1,0) touches (0,0), (1,-1) and (2,-1): three live neighbours.
    let mut g = grid_with(6, &[(0, 0), (1, -1), (2, -1)]);
    assert_eq!(g.neighbor_alive_count(at(1, 0)), 3);
    g.tick();
    assert_eq!(g.get(at(1, 0)), Ok(true));
    assert_eq!(g.get(at(1, -1)), Ok(true));
    assert_eq!(g.get(at(0, 0)), Ok(false));
    assert_eq!(g.get(at(2, -1)), Ok(false));
}

#[test]
fn boundary_cells_are_dead_after_every_tick() {
    let origin = at(0, 0);
    for radius in 1..6 {
        let mut g = HexGrid::new(radius).unwrap();
        let n = g.len();
        g.randomize(&vec![true; n]);
        g.tick();
        for cell in g.iterate() {
            if origin.distance(cell.0) >= radius - 1 {
                assert!(!cell.1);
            }
        }
    }
    let mut g = grid_with(4, &[(3, 0), (3, -1), (2, 0), (2, 1), (3, -3)]);
    g.tick();
    assert_eq!(g.get(at(3, 0)), Ok(false));
    assert_eq!(g.get(at(3, -1)), Ok(false));
    assert_eq!(g.get(at(3, -3)), Ok(false));
}

#[test]
fn boundary_cell_with_three_live_neighbors_is_not_born() {
    let mut g = grid_with(3, &[(1, 0), (1, 1), (2, -1)]);
    g.tick();
    assert_eq!(g.get(at(2, 0)), Ok(false));
}

#[test]
fn all_dead_grid_is_a_fixed_point() {
    for radius in [1, 2, 3, 10] {
        let mut g = HexGrid::new(radius).unwrap();
        g.tick();
        assert_eq!(g, HexGrid::new(radius).unwrap());
        g.tick();
        assert_eq!(g, HexGrid::new(radius).unwrap());
    }
}

#[test]
fn tick_keeps_the_cells() {
    let mut g = HexGrid::new(6).unwrap();
    let before: Vec<HexCoordinate> = g.iterate().iter().map(|cell| cell.0).collect();
    g.randomize(&vec![true, false, true, true, false, true, true, true]);
    g.tick();
    let after: Vec<HexCoordinate> = g.iterate().iter().map(|cell| cell.0).collect();
    assert_eq!(before, after);
    assert_eq!(g.radius(), 6);
}
