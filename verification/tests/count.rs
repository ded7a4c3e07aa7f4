use game_of_life::{count_alive_cells, GameError};

#[test]
fn count_of_all_zero_grid_is_zero() {
    for (width, height) in [(1usize, 1usize), (3, 5), (20, 20)] {
        assert_eq!(count_alive_cells(&vec![vec![0u32; width]; height]), Ok(0));
    }
}

#[test]
fn count_of_all_one_grid_is_width_times_height() {
    for (width, height) in [(1usize, 1usize), (3, 5), (20, 20), (64, 17)] {
        let board = vec![vec![1u32; width]; height];
        assert_eq!(count_alive_cells(&board), Ok((width * height) as u32));
    }
}

#[test]
fn count_is_the_number_of_ones() {
    let board = vec![vec![0, 1, 0], vec![1, 0, 1], vec![0, 1, 0]];
    assert_eq!(count_alive_cells(&board), Ok(4));
    let board = vec![vec![1, 1, 0, 1], vec![0, 0, 0, 0], vec![1, 0, 0, 1]];
    assert_eq!(count_alive_cells(&board), Ok(5));
}

#[test]
fn count_of_no_rows_is_zero() {
    assert_eq!(count_alive_cells(&[]), Ok(0));
    assert_eq!(count_alive_cells(&[vec![], vec![]]), Ok(0));
}

#[test]
fn count_takes_rows_of_any_length() {
    let board = vec![vec![1], vec![1, 1, 1], vec![], vec![0, 1]];
    assert_eq!(count_alive_cells(&board), Ok(5));
}

#[test]
fn count_reports_an_invalid_cell() {
    let board = vec![vec![0, 1, 0], vec![1, 2, 1]];
    assert_eq!(count_alive_cells(&board), Err(GameError::InvalidCellValue));
    let board = vec![vec![u32::MAX]];
    assert_eq!(count_alive_cells(&board), Err(GameError::InvalidCellValue));
    let board = vec![vec![1, 1, 1], vec![1, 1, 9]];
    assert_eq!(count_alive_cells(&board), Err(GameError::InvalidCellValue));
}
