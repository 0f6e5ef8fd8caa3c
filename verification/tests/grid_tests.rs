use particle_sandbox::config::{Config, CELL_CAPACITY};
use particle_sandbox::grid::{Cell, Grid};

fn test_config() -> Config {
    // radius 5 -> cell width 20; 1000 x 1000 world -> 50 x 50 grid.
    Config::new(5, 1000, 1000).unwrap()
}

#[test]
fn cell_holds_indices_in_insertion_order() {
    let mut cell = Cell::new();
    assert_eq!(cell.get_objects().len(), 0);
    cell.add(4);
    cell.add(9);
    cell.add(2);
    assert_eq!(cell.get_objects().as_slice(), &[4, 9, 2]);
}

#[test]
fn cell_capacity_drops_excess_keeps_oldest() {
    // Inserting more than the capacity leaves exactly `CELL_CAPACITY`
    // entries, the first ones, in insertion order.
    let mut cell = Cell::new();
    for i in 0..(CELL_CAPACITY + 5) {
        cell.add(100 + i);
    }
    let stored = cell.get_objects();
    assert_eq!(stored.len(), CELL_CAPACITY);
    for i in 0..CELL_CAPACITY {
        assert_eq!(stored[i], 100 + i);
    }
}

#[test]
fn cell_clear_empties() {
    let mut cell = Cell::new();
    cell.add(1);
    cell.add(2);
    cell.clear();
    assert_eq!(cell.get_objects().len(), 0);
    cell.add(7);
    assert_eq!(cell.get_objects().as_slice(), &[7]);
}

#[test]
fn grid_starts_empty() {
    let config = test_config();
    let grid = Grid::new(config);
    for row in [0usize, 1, 25, 49] {
        for column in [0usize, 1, 25, 49] {
            assert_eq!(grid.get_cell_objects(row, column).len(), 0);
        }
    }
}

#[test]
fn insert_lands_in_exactly_one_cell() {
    // (105, 45) -> column floor(105 / 20) = 5, row floor(45 / 20) = 2.
    let config = test_config();
    let mut grid = Grid::new(config);
    grid.add_object(105, 45, 7);
    for row in 0..50usize {
        for column in 0..50usize {
            let stored = grid.get_cell_objects(row, column);
            if row == 2 && column == 5 {
                assert_eq!(stored.as_slice(), &[7]);
            } else {
                assert_eq!(stored.len(), 0, "unexpected occupant at ({row}, {column})");
            }
        }
    }
}

#[test]
fn cell_boundary_coordinates_floor_downwards() {
    let config = test_config();
    let mut grid = Grid::new(config);
    grid.add_object(0, 0, 1);
    grid.add_object(19, 19, 2);
    grid.add_object(20, 20, 3);
    assert_eq!(grid.get_cell_objects(0, 0).as_slice(), &[1, 2]);
    assert_eq!(grid.get_cell_objects(1, 1).as_slice(), &[3]);
}

#[test]
fn out_of_world_inserts_are_silent_no_ops() {
    let config = test_config();
    let mut grid = Grid::new(config);
    grid.add_object(-1, 500, 1);
    grid.add_object(500, -30, 2);
    grid.add_object(1000, 500, 3); // column 50 is out of the 50-wide grid
    grid.add_object(500, 20000, 4);
    for row in 0..50usize {
        for column in 0..50usize {
            assert_eq!(grid.get_cell_objects(row, column).len(), 0);
        }
    }
}

#[test]
fn grid_cell_overflow_keeps_first_eight() {
    let config = test_config();
    let mut grid = Grid::new(config);
    for i in 0..12usize {
        grid.add_object(210, 210, i);
    }
    let stored = grid.get_cell_objects(10, 10);
    assert_eq!(stored.len(), CELL_CAPACITY);
    for i in 0..CELL_CAPACITY {
        assert_eq!(stored[i], i);
    }
}

#[test]
fn grid_clear_resets_every_cell() {
    let config = test_config();
    let mut grid = Grid::new(config);
    grid.add_object(105, 45, 7);
    grid.add_object(700, 700, 8);
    grid.clear();
    for row in 0..50usize {
        for column in 0..50usize {
            assert_eq!(grid.get_cell_objects(row, column).len(), 0);
        }
    }
}
