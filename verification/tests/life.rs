use game_of_life::board::Board;
use game_of_life::board::Coordinates;
use game_of_life::cell::Cell;

#[test]
fn coordinates_new_keeps_row_and_column() {
    let position = Coordinates::new(2, 7);
    assert_eq!(position.row, 2);
    assert_eq!(position.column, 7);
}

#[test]
fn cell_toggle_flips_both_ways() {
    let mut cell = Cell::DEAD;
    cell.toggle();
    assert_eq!(cell, Cell::ALIVE);
    cell.toggle();
    assert_eq!(cell, Cell::DEAD);
}

#[test]
fn cell_is_alive_matches_variant() {
    assert!(Cell::ALIVE.is_alive());
    assert!(!Cell::DEAD.is_alive());
}

#[test]
fn board_length_is_height_times_width() {
    let board = Board::new(3, 4);
    assert_eq!(board.get_board_length(), 12);
    assert_eq!(board.cells().len(), 12);
}

#[test]
fn board_length_holds_after_mutation() {
    let mut board = Board::new(3, 4);
    board.toggle_cells();
    assert_eq!(board.get_board_length(), 12);
    assert_eq!(board.cells().len(), 12);
    board.set_cells();
    assert_eq!(board.get_board_length(), 12);
    assert_eq!(board.cells().len(), 12);
}

#[test]
fn seed_alternates_starting_alive() {
    let board = Board::new(3, 3);
    assert_eq!(board.cells(), vec![1, 0, 1, 0, 1, 0, 1, 0, 1]);
}

#[test]
fn seed_marks_even_indices_alive() {
    let board = Board::new(4, 5);
    let buffer = board.cells();
    for (index, byte) in buffer.iter().enumerate() {
        assert_eq!(*byte, if index % 2 == 0 { 1 } else { 0 });
    }
}

#[test]
fn position_index_round_trip() {
    let board = Board::new(4, 5);
    for index in 0..20 {
        let position = board.get_cell_position_by_index(index);
        assert_eq!(board.get_cell_index_by_position(position), index);
    }
}

#[test]
fn position_from_index_row_major() {
    let board = Board::new(4, 5);
    let position = board.get_cell_position_by_index(13);
    assert_eq!(position.row, 2);
    assert_eq!(position.column, 3);
}

#[test]
fn neighbour_counts_on_all_alive_board() {
    let board = Board {
        height: 3,
        width: 3,
        cells: vec![Cell::ALIVE; 9],
    };
    // interior
    assert_eq!(board.get_neighbours_count(4), 8);
    // corners
    assert_eq!(board.get_neighbours_count(0), 3);
    assert_eq!(board.get_neighbours_count(2), 3);
    assert_eq!(board.get_neighbours_count(6), 3);
    assert_eq!(board.get_neighbours_count(8), 3);
    // edges
    assert_eq!(board.get_neighbours_count(1), 5);
    assert_eq!(board.get_neighbours_count(3), 5);
    assert_eq!(board.get_neighbours_count(5), 5);
    assert_eq!(board.get_neighbours_count(7), 5);
}

#[test]
fn neighbour_count_on_seeded_board() {
    let board = Board::new(3, 3);
    // the centre cell of the alternating 3x3 pattern sees the 4 live corners
    assert_eq!(board.get_neighbours_count(4), 4);
    // a corner sees the centre only
    assert_eq!(board.get_neighbours_count(0), 1);
    // an edge cell sees three live cells
    assert_eq!(board.get_neighbours_count(1), 3);
}

#[test]
fn isolated_cell_dies() {
    let mut cells = vec![Cell::DEAD; 9];
    cells[4] = Cell::ALIVE;
    let mut board = Board {
        height: 3,
        width: 3,
        cells,
    };
    board.toggle_cells();
    assert_eq!(board.cells(), vec![0; 9]);
}

#[test]
fn block_is_stable() {
    let mut cells = vec![Cell::DEAD; 16];
    for index in [5, 6, 9, 10] {
        cells[index] = Cell::ALIVE;
    }
    let mut board = Board {
        height: 4,
        width: 4,
        cells,
    };
    let before = board.cells();
    board.toggle_cells();
    assert_eq!(board.cells(), before);
}

#[test]
fn block_in_corner_is_stable() {
    let mut cells = vec![Cell::DEAD; 16];
    for index in [0, 1, 4, 5] {
        cells[index] = Cell::ALIVE;
    }
    let mut board = Board {
        height: 4,
        width: 4,
        cells,
    };
    let before = board.cells();
    board.toggle_cells();
    assert_eq!(board.cells(), before);
}

#[test]
fn step_on_seeded_three_by_three() {
    let mut board = Board::new(3, 3);
    board.toggle_cells();
    // live corners and centre: corners see 1 neighbour and die, the centre
    // sees 4 and dies; every dead edge cell sees exactly 3 and is born
    assert_eq!(board.cells(), vec![0, 1, 0, 1, 0, 1, 0, 1, 0]);
}

#[test]
fn seed_twice_equals_seed_once() {
    let mut board = Board::new(4, 4);
    board.set_cells();
    let once = board.cells();
    board.set_cells();
    assert_eq!(board.cells(), once);
}

#[test]
fn seed_resets_after_step() {
    let mut board = Board::new(4, 4);
    let seeded = board.cells();
    board.toggle_cells();
    board.set_cells();
    assert_eq!(board.cells(), seeded);
}

#[test]
fn empty_board_has_no_cells() {
    let mut board = Board::new(0, 5);
    assert_eq!(board.get_board_length(), 0);
    assert_eq!(board.cells(), Vec::<u8>::new());
    board.toggle_cells();
    assert_eq!(board.get_board_length(), 0);
}

#[test]
fn single_cell_board_dies() {
    let mut board = Board::new(1, 1);
    assert_eq!(board.cells(), vec![1]);
    assert_eq!(board.get_neighbours_count(0), 0);
    board.toggle_cells();
    assert_eq!(board.cells(), vec![0]);
}

#[test]
fn cell_buffer_is_a_snapshot() {
    let board = Board::new(2, 2);
    let mut buffer = board.cells();
    buffer[0] = 9;
    assert_eq!(board.cells(), vec![1, 0, 1, 0]);
}
