use game_of_life::{compute_cell_state, next_generation, next_iteration, GameError};

fn grid(rows: &[&str]) -> Vec<Vec<u32>> {
    rows.iter()
        .map(|row| row.chars().map(|c| if c == '1' { 1 } else { 0 }).collect())
        .collect()
}

fn step(rows: &[&str]) -> Vec<Vec<u32>> {
    let mut board = grid(rows);
    let width = board[0].len() as u32;
    let height = board.len() as u32;
    let mut generation = 1;
    assert_eq!(next_iteration(&mut board, width, height, &mut generation), Ok(()));
    assert_eq!(generation, 2);
    board
}

#[test]
fn all_dead_grid_stays_dead() {
    for (width, height) in [(1usize, 1usize), (1, 7), (7, 1), (3, 3), (5, 8), (20, 20)] {
        let dead = vec![vec![0u32; width]; height];
        let mut board = dead.clone();
        let mut generation = 1;
        let result = next_iteration(&mut board, width as u32, height as u32, &mut generation);
        assert_eq!(result, Ok(()));
        assert_eq!(board, dead);
    }
}

#[test]
fn block_is_a_still_life() {
    let block = ["0000", "0110", "0110", "0000"];
    assert_eq!(step(&block), grid(&block));
    let wide = ["000000", "000000", "001100", "001100", "000000"];
    assert_eq!(step(&wide), grid(&wide));
}

#[test]
fn block_in_a_corner_is_a_still_life() {
    let block = ["1100", "1100", "0000", "0000"];
    assert_eq!(step(&block), grid(&block));
}

#[test]
fn blinker_oscillates() {
    let horizontal = ["00000", "00000", "01110", "00000", "00000"];
    let vertical = ["00000", "00100", "00100", "00100", "00000"];
    assert_eq!(step(&horizontal), grid(&vertical));
    assert_eq!(step(&vertical), grid(&horizontal));
}

#[test]
fn lone_corner_cell_dies() {
    let corner = ["100", "000", "000"];
    let board = grid(&corner);
    assert_eq!(compute_cell_state(&board, 0, 0, 3, 3), Ok(0));
    assert_eq!(step(&corner), vec![vec![0u32; 3]; 3]);
}

#[test]
fn every_corner_is_clipped() {
    let full = ["111", "111", "111"];
    let board = grid(&full);
    // three neighbours at a corner, five on an edge, eight in the middle
    assert_eq!(compute_cell_state(&board, 0, 0, 3, 3), Ok(1));
    assert_eq!(compute_cell_state(&board, 0, 2, 3, 3), Ok(1));
    assert_eq!(compute_cell_state(&board, 2, 0, 3, 3), Ok(1));
    assert_eq!(compute_cell_state(&board, 2, 2, 3, 3), Ok(1));
    assert_eq!(compute_cell_state(&board, 0, 1, 3, 3), Ok(0));
    assert_eq!(compute_cell_state(&board, 1, 0, 3, 3), Ok(0));
    assert_eq!(compute_cell_state(&board, 1, 1, 3, 3), Ok(0));
    assert_eq!(step(&full), grid(&["101", "000", "101"]));
}

#[test]
fn no_wraparound_between_opposite_edges() {
    let board = grid(&["1001", "0000", "0000", "1001"]);
    for row in 0..4 {
        for column in 0..4 {
            assert_eq!(compute_cell_state(&board, row, column, 4, 4), Ok(0));
        }
    }
}

#[test]
fn single_cell_board_always_dies() {
    assert_eq!(step(&["1"]), vec![vec![0u32]]);
    assert_eq!(step(&["0"]), vec![vec![0u32]]);
}

#[test]
fn live_cell_survives_with_two_or_three_neighbours() {
    assert_eq!(compute_cell_state(&grid(&["000", "010", "000"]), 1, 1, 3, 3), Ok(0));
    assert_eq!(compute_cell_state(&grid(&["100", "010", "000"]), 1, 1, 3, 3), Ok(0));
    assert_eq!(compute_cell_state(&grid(&["100", "010", "001"]), 1, 1, 3, 3), Ok(1));
    assert_eq!(compute_cell_state(&grid(&["101", "010", "001"]), 1, 1, 3, 3), Ok(1));
    assert_eq!(compute_cell_state(&grid(&["101", "010", "101"]), 1, 1, 3, 3), Ok(0));
    assert_eq!(compute_cell_state(&grid(&["111", "111", "111"]), 1, 1, 3, 3), Ok(0));
}

#[test]
fn dead_cell_is_born_with_exactly_three_neighbours() {
    assert_eq!(compute_cell_state(&grid(&["000", "000", "000"]), 1, 1, 3, 3), Ok(0));
    assert_eq!(compute_cell_state(&grid(&["110", "000", "000"]), 1, 1, 3, 3), Ok(0));
    assert_eq!(compute_cell_state(&grid(&["110", "000", "001"]), 1, 1, 3, 3), Ok(1));
    assert_eq!(compute_cell_state(&grid(&["110", "100", "001"]), 1, 1, 3, 3), Ok(0));
    assert_eq!(compute_cell_state(&grid(&["111", "101", "111"]), 1, 1, 3, 3), Ok(0));
}

#[test]
fn each_of_the_eight_positions_counts_once() {
    for position in 0..9usize {
        if position == 4 {
            continue;
        }
        let mut board = vec![vec![0u32; 3]; 3];
        board[0][0] = 1;
        board[2][2] = 1;
        if position == 0 || position == 8 {
            board[0][2] = 1;
        }
        board[position / 3][position % 3] = 1;
        // with the two or three fixed cells this makes exactly three neighbours
        assert_eq!(compute_cell_state(&board, 1, 1, 3, 3), Ok(1));
    }
}

#[test]
fn the_cell_itself_is_no_neighbour() {
    assert_eq!(compute_cell_state(&grid(&["110", "010", "000"]), 1, 1, 3, 3), Ok(1));
    assert_eq!(compute_cell_state(&grid(&["110", "000", "000"]), 1, 1, 3, 3), Ok(0));
}

#[test]
fn invalid_cell_stops_the_step() {
    let mut board = vec![vec![0, 1, 0], vec![1, 2, 1], vec![0, 1, 0]];
    let before = board.clone();
    let mut generation = 5;
    let result = next_iteration(&mut board, 3, 3, &mut generation);
    assert_eq!(result, Err(GameError::InvalidCellValue));
    assert_eq!(board, before);
    assert_eq!(generation, 5);
    assert_eq!(next_generation(&before, 3, 3), Err(GameError::InvalidCellValue));
}

#[test]
fn invalid_cell_is_never_read_as_dead() {
    let board = vec![vec![7, 0, 0], vec![0, 1, 0], vec![0, 0, 0], vec![0, 0, 0]];
    assert_eq!(compute_cell_state(&board, 0, 0, 3, 4), Err(GameError::InvalidCellValue));
    assert_eq!(compute_cell_state(&board, 1, 1, 3, 4), Err(GameError::InvalidCellValue));
    // out of reach of the bad cell
    assert_eq!(compute_cell_state(&board, 1, 2, 3, 4), Ok(0));
    assert_eq!(compute_cell_state(&board, 3, 0, 3, 4), Ok(0));
}

#[test]
fn next_generation_leaves_its_input_alone() {
    let glider = grid(&["010", "001", "111"]);
    let copy = glider.clone();
    let next = next_generation(&glider, 3, 3).unwrap();
    assert_eq!(glider, copy);
    assert_eq!(next, grid(&["000", "101", "011"]));
}

#[test]
fn generation_counts_each_step() {
    let mut board = grid(&["00000", "00000", "01110", "00000", "00000"]);
    let mut generation = 1;
    for n in 1..=25u64 {
        assert_eq!(next_iteration(&mut board, 5, 5, &mut generation), Ok(()));
        assert_eq!(generation, 1 + n);
    }
}

#[test]
fn rectangular_grid_keeps_its_shape() {
    let next = step(&["0100000", "0100000", "0100000"]);
    assert_eq!(next, grid(&["0000000", "1110000", "0000000"]));
}
