use game_of_life::rules::{apply_rule, Cell};
use game_of_life::universe::Universe;

/// A grid of the given size with every cell dead.
fn all_dead(width: u32, height: u32) -> Vec<Cell> {
    vec![Cell::Dead; (width * height) as usize]
}

/// A grid of the given size with every cell alive.
fn all_alive(width: u32, height: u32) -> Vec<Cell> {
    vec![Cell::Alive; (width * height) as usize]
}

#[test]
fn buffer_size_after_construction_and_ticks() {
    let mut universe = Universe::new(128, 64);
    assert_eq!(universe.cells().len(), 128 * 64);
    for _ in 0..3 {
        universe.tick();
        assert_eq!(universe.cells().len(), 128 * 64);
    }
}

#[test]
fn seeding_rule_spot_checks() {
    let universe = Universe::new(128, 64);
    let cells = universe.cells();
    assert_eq!(cells[0], Cell::Alive); // even
    assert_eq!(cells[1], Cell::Dead);
    assert_eq!(cells[7], Cell::Alive); // multiple of 7
    assert_eq!(cells[9], Cell::Dead);
}

#[test]
fn seeding_rule_everywhere() {
    let universe = Universe::new(128, 64);
    for (i, &cell) in universe.cells().iter().enumerate() {
        let expected = if i % 2 == 0 || i % 7 == 0 {
            Cell::Alive
        } else {
            Cell::Dead
        };
        assert_eq!(cell, expected, "wrong seed at flat index {}", i);
    }
}

#[test]
fn toroidal_wraparound_diagonal_corner() {
    // A single live cell at (height - 1, width - 1) is a neighbor of (0, 0).
    let mut cells = all_dead(4, 4);
    cells[3 * 4 + 3] = Cell::Alive;
    let universe = Universe::from_cells(4, 4, cells);
    assert_eq!(universe.live_neighbor_count(0, 0), 1);
}

#[test]
fn toroidal_wraparound_four_edges() {
    // Top edge: row 0 sees row height - 1 as the row above.
    let mut cells = all_dead(4, 4);
    cells[3 * 4 + 1] = Cell::Alive;
    let universe = Universe::from_cells(4, 4, cells);
    assert_eq!(universe.live_neighbor_count(0, 1), 1);

    // Bottom edge: row height - 1 sees row 0 below.
    let mut cells = all_dead(4, 4);
    cells[1] = Cell::Alive;
    let universe = Universe::from_cells(4, 4, cells);
    assert_eq!(universe.live_neighbor_count(3, 1), 1);

    // Left edge: column 0 sees column width - 1 to its left.
    let mut cells = all_dead(4, 4);
    cells[4 + 3] = Cell::Alive;
    let universe = Universe::from_cells(4, 4, cells);
    assert_eq!(universe.live_neighbor_count(1, 0), 1);

    // Right edge: column width - 1 sees column 0 to its right.
    let mut cells = all_dead(4, 4);
    cells[4] = Cell::Alive;
    let universe = Universe::from_cells(4, 4, cells);
    assert_eq!(universe.live_neighbor_count(1, 3), 1);
}

#[test]
fn neighbor_count_range() {
    // On an all-alive grid every count reaches the maximum of eight; on an
    // all-dead grid it is zero; the seeded universe stays within [0, 8].
    let universe = Universe::from_cells(4, 4, all_alive(4, 4));
    for row in 0..4 {
        for col in 0..4 {
            assert_eq!(universe.live_neighbor_count(row, col), 8);
        }
    }
    let universe = Universe::from_cells(4, 4, all_dead(4, 4));
    for row in 0..4 {
        for col in 0..4 {
            assert_eq!(universe.live_neighbor_count(row, col), 0);
        }
    }
    let mut universe = Universe::new(16, 8);
    for _ in 0..4 {
        for row in 0..8 {
            for col in 0..16 {
                assert!(universe.live_neighbor_count(row, col) <= 8);
            }
        }
        universe.tick();
    }
}

#[test]
fn lone_cell_dies() {
    // A 3x3 grid, all dead but one cell: the live cell has no live
    // neighbor and dies of underpopulation; every dead cell sees at most
    // one live neighbor and stays dead. One tick empties the grid.
    let mut cells = all_dead(3, 3);
    cells[1 * 3 + 1] = Cell::Alive;
    let mut universe = Universe::from_cells(3, 3, cells);
    universe.tick();
    assert_eq!(universe.cells().as_slice(), all_dead(3, 3).as_slice());
}

#[test]
fn block_is_a_still_life() {
    // A 2x2 block of live cells on a 4x4 torus: each block cell has
    // exactly three live neighbors and survives; each other cell has at
    // most two and stays dead. The grid never changes.
    let mut cells = all_dead(4, 4);
    cells[1 * 4 + 1] = Cell::Alive;
    cells[1 * 4 + 2] = Cell::Alive;
    cells[2 * 4 + 1] = Cell::Alive;
    cells[2 * 4 + 2] = Cell::Alive;
    let block = cells.clone();
    let mut universe = Universe::from_cells(4, 4, cells);
    for _ in 0..5 {
        universe.tick();
        assert_eq!(universe.cells().as_slice(), block.as_slice());
    }
}

#[test]
fn determinism_across_runs() {
    let mut first = Universe::new(128, 64);
    let mut second = Universe::new(128, 64);
    assert_eq!(first.cells().as_slice(), second.cells().as_slice());
    for _ in 0..10 {
        first.tick();
        second.tick();
        assert_eq!(first.cells().as_slice(), second.cells().as_slice());
    }
}

#[test]
fn accessors_are_read_only() {
    let mut universe = Universe::new(128, 64);
    for _ in 0..3 {
        assert_eq!(universe.width(), 128);
        assert_eq!(universe.height(), 64);
    }
    let before: Vec<Cell> = universe.cells().clone();
    let again: Vec<Cell> = universe.cells().clone();
    assert_eq!(before.as_slice(), again.as_slice());
    universe.tick();
    assert_eq!(universe.width(), 128);
    assert_eq!(universe.height(), 64);
}

#[test]
fn rule_table() {
    // Live cells: underpopulation below two, survival on two or three,
    // overpopulation above three.
    for n in 0..=8u8 {
        let expected = if n == 2 || n == 3 {
            Cell::Alive
        } else {
            Cell::Dead
        };
        assert_eq!(apply_rule(Cell::Alive, n), expected, "alive cell with {} neighbors", n);
    }
    // Dead cells: birth on exactly three live neighbors.
    for n in 0..=8u8 {
        let expected = if n == 3 { Cell::Alive } else { Cell::Dead };
        assert_eq!(apply_rule(Cell::Dead, n), expected, "dead cell with {} neighbors", n);
    }
}

#[test]
fn render_small_grid() {
    let cells = vec![Cell::Alive, Cell::Dead, Cell::Dead, Cell::Alive];
    let universe = Universe::from_cells(2, 2, cells);
    assert_eq!(universe.render(), "◻◼\n◼◻\n");
}

#[test]
fn render_one_line_per_row() {
    let universe = Universe::new(8, 4);
    let text = universe.render();
    assert_eq!(text.lines().count(), 4);
    for line in text.lines() {
        assert_eq!(line.chars().count(), 8);
    }
}

#[test]
fn get_idx_is_row_major() {
    let universe = Universe::new(128, 64);
    assert_eq!(universe.get_idx(0, 0), 0);
    assert_eq!(universe.get_idx(0, 127), 127);
    assert_eq!(universe.get_idx(1, 0), 128);
    assert_eq!(universe.get_idx(63, 127), 128 * 64 - 1);
}
