use wasm_cgol::{Cell, Universe};

fn sized(width: u32, height: u32) -> Universe {
    let mut universe = Universe::new();
    universe.set_width(width);
    universe.set_height(height);
    universe
}

fn alive_positions(universe: &Universe) -> Vec<(u32, u32)> {
    let width = universe.width();
    let mut positions = Vec::new();
    for (i, cell) in universe.get_cells().iter().enumerate() {
        if *cell == Cell::Alive {
            positions.push((i as u32 / width, i as u32 % width));
        }
    }
    positions
}

fn initial_spaceship() -> Universe {
    let mut universe = sized(6, 6);
    universe.set_cells(&[(1, 2), (2, 3), (3, 1), (3, 2), (3, 3)]);
    universe
}

fn expected_spaceship() -> Universe {
    let mut universe = sized(6, 6);
    universe.set_cells(&[(2, 1), (2, 3), (3, 2), (3, 3), (4, 2)]);
    universe
}

#[test]
fn test_tick() {
    let mut initial_universe = initial_spaceship();
    let expected_universe = expected_spaceship();

    initial_universe.tick();

    assert_eq!(&initial_universe.get_cells(), &expected_universe.get_cells());
}

#[test]
fn glider_moves_exactly() {
    let mut universe = initial_spaceship();
    universe.tick();
    assert_eq!(alive_positions(&universe), vec![(2, 1), (2, 3), (3, 2), (3, 3), (4, 2)]);
}

#[test]
fn glider_returns_shifted_after_four_ticks() {
    let mut universe = initial_spaceship();
    for _ in 0..4 {
        universe.tick();
    }
    assert_eq!(alive_positions(&universe), vec![(2, 3), (3, 4), (4, 2), (4, 3), (4, 4)]);
}

#[test]
fn new_universe_holds_the_glider() {
    let universe = Universe::new();
    assert_eq!(universe.width(), 80);
    assert_eq!(universe.height(), 80);
    assert_eq!(universe.get_cells().len(), 6400);
    assert_eq!(alive_positions(&universe), vec![(36, 2), (37, 3), (38, 1), (38, 2), (38, 3)]);
}

#[test]
fn dimensions_match_buffer_after_resize_and_tick() {
    let mut universe = sized(7, 3);
    assert_eq!(universe.width(), 7);
    assert_eq!(universe.height(), 3);
    assert_eq!(universe.get_cells().len(), 21);
    universe.tick();
    assert_eq!(universe.get_cells().len(), 21);
    universe.set_height(5);
    assert_eq!(universe.get_cells().len(), 35);
}

#[test]
fn set_cells_twice_is_set_cells_once() {
    let coords = [(0, 0), (1, 2), (2, 1), (1, 2)];
    let mut once = sized(4, 3);
    once.set_cells(&coords);
    let mut twice = sized(4, 3);
    twice.set_cells(&coords);
    twice.set_cells(&coords);
    assert_eq!(once.get_cells(), twice.get_cells());
    assert_eq!(alive_positions(&twice), vec![(0, 0), (1, 2), (2, 1)]);
}

#[test]
fn set_cells_keeps_live_cells_alive() {
    let mut universe = sized(3, 3);
    universe.set_cells(&[(1, 1)]);
    universe.set_cells(&[(1, 1), (0, 2)]);
    assert_eq!(alive_positions(&universe), vec![(0, 2), (1, 1)]);
}

#[test]
fn corner_counts_cells_across_both_edges() {
    let mut universe = sized(5, 5);
    universe.set_cells(&[(4, 4), (0, 4), (4, 0), (1, 1)]);
    assert_eq!(universe.alive_neighbor_count(0, 0), 4);
    assert_eq!(universe.alive_neighbor_count(4, 4), 2);
    assert_eq!(universe.alive_neighbor_count(2, 2), 1);
}

#[test]
fn edge_counts_cells_on_opposite_edge() {
    let mut universe = sized(6, 4);
    universe.set_cells(&[(3, 2), (3, 3), (3, 4)]);
    assert_eq!(universe.alive_neighbor_count(0, 3), 3);
    assert_eq!(universe.alive_neighbor_count(1, 3), 0);
}

#[test]
fn full_grid_counts_eight() {
    let mut universe = sized(3, 3);
    let mut all = Vec::new();
    for row in 0..3 {
        for col in 0..3 {
            all.push((row, col));
        }
    }
    universe.set_cells(&all);
    assert_eq!(universe.alive_neighbor_count(1, 1), 8);
    assert_eq!(universe.alive_neighbor_count(0, 0), 8);
}

#[test]
fn lonely_cell_dies() {
    let mut universe = sized(5, 5);
    universe.set_cells(&[(2, 2), (0, 0)]);
    universe.tick();
    assert!(alive_positions(&universe).is_empty());
}

#[test]
fn crowded_cell_dies_and_block_survives() {
    let mut plus = sized(7, 7);
    plus.set_cells(&[(3, 3), (2, 3), (4, 3), (3, 2), (3, 4)]);
    plus.tick();
    assert_eq!(plus.get_cells()[3 * 7 + 3], Cell::Dead);

    let mut block = sized(6, 6);
    block.set_cells(&[(2, 2), (2, 3), (3, 2), (3, 3)]);
    let before = block.get_cells().to_vec();
    block.tick();
    assert_eq!(block.get_cells(), before.as_slice());
}

#[test]
fn blinker_turns_by_birth_and_death() {
    let mut universe = sized(5, 5);
    universe.set_cells(&[(2, 1), (2, 2), (2, 3)]);
    universe.tick();
    assert_eq!(alive_positions(&universe), vec![(1, 2), (2, 2), (3, 2)]);
    universe.tick();
    assert_eq!(alive_positions(&universe), vec![(2, 1), (2, 2), (2, 3)]);
}

#[test]
fn same_start_gives_same_generations() {
    let mut a = sized(8, 6);
    let mut b = sized(8, 6);
    let seed = [(1, 1), (1, 2), (2, 2), (3, 5), (4, 5), (5, 5), (0, 7)];
    a.set_cells(&seed);
    b.set_cells(&seed);
    for _ in 0..10 {
        a.tick();
        b.tick();
        assert_eq!(a.get_cells(), b.get_cells());
    }
}

#[test]
fn set_width_clears_every_cell() {
    let mut universe = sized(4, 4);
    universe.set_cells(&[(0, 0), (3, 3), (1, 2)]);
    universe.set_width(5);
    assert_eq!(universe.width(), 5);
    assert_eq!(universe.get_cells(), vec![Cell::Dead; 20].as_slice());
}

#[test]
fn set_height_clears_every_cell() {
    let mut universe = Universe::new();
    universe.set_height(3);
    assert_eq!(universe.height(), 3);
    assert_eq!(universe.get_cells(), vec![Cell::Dead; 240].as_slice());
}

#[test]
fn toggle_cell_flips_one_cell() {
    let mut universe = sized(3, 2);
    universe.toggle_cell(1, 2);
    assert_eq!(alive_positions(&universe), vec![(1, 2)]);
    universe.toggle_cell(0, 0);
    universe.toggle_cell(1, 2);
    assert_eq!(alive_positions(&universe), vec![(0, 0)]);
}

#[test]
fn render_draws_rows_of_glyphs() {
    let mut universe = sized(3, 2);
    universe.set_cells(&[(0, 1), (1, 2)]);
    assert_eq!(universe.render(), "\u{25FB}\u{25FC}\u{25FB}\n\u{25FB}\u{25FB}\u{25FC}\n");
}

#[test]
fn byte_offset_copies_one_byte_per_cell() {
    let mut universe = sized(2, 2);
    universe.set_cells(&[(0, 1), (1, 0)]);
    assert_eq!(universe.byte_offset(), vec![0, 1, 1, 0]);
}

#[test]
fn cell_toggle_and_rule() {
    let mut cell = Cell::Dead;
    cell.toggle();
    assert_eq!(cell, Cell::Alive);
    cell.toggle();
    assert_eq!(cell, Cell::Dead);
    assert_eq!(Cell::Dead.next(3), Cell::Alive);
    assert_eq!(Cell::Dead.next(2), Cell::Dead);
    assert_eq!(Cell::Alive.next(1), Cell::Dead);
    assert_eq!(Cell::Alive.next(2), Cell::Alive);
    assert_eq!(Cell::Alive.next(3), Cell::Alive);
    assert_eq!(Cell::Alive.next(4), Cell::Dead);
    assert_eq!(Cell::Alive.value(), 1);
    assert_eq!(Cell::Dead.value(), 0);
}
