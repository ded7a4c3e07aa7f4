use game_of_life::{
    board_from_cells, count_alive_cells, initalize_board, print_cell, render, render_with, GameError,
};

#[test]
fn frame_has_a_block_for_each_cell_and_a_line_for_each_row() {
    let board = vec![vec![0, 1, 0], vec![1, 0, 1]];
    assert_eq!(render_with(&board, 3, ".", "#"), Ok(".#.\n#.#\n".to_string()));
    assert_eq!(render_with(&board, 3, "[]", "<>"), Ok("[]<>[]\n<>[]<>\n".to_string()));
}

#[test]
fn frame_of_no_rows_is_empty() {
    assert_eq!(render_with(&[], 3, ".", "#"), Ok(String::new()));
    assert_eq!(render_with(&[vec![], vec![]], 3, ".", "#"), Ok(String::new()));
}

#[test]
fn line_breaks_go_by_the_width_given() {
    let board = vec![vec![1, 1, 0, 0]];
    assert_eq!(render_with(&board, 4, ".", "#"), Ok("##..\n".to_string()));
    // a smaller width: every cell from that number on ends a line
    assert_eq!(render_with(&board, 2, ".", "#"), Ok("##\n.\n.\n".to_string()));
    assert_eq!(render_with(&board, 0, ".", "#"), Ok("#\n#\n.\n.\n".to_string()));
    // a larger width: no line break at all
    assert_eq!(render_with(&board, 5, ".", "#"), Ok("##..".to_string()));
}

#[test]
fn frame_reports_an_invalid_cell() {
    let board = vec![vec![0, 1], vec![4, 0]];
    assert_eq!(render_with(&board, 2, ".", "#"), Err(GameError::InvalidCellValue));
    assert_eq!(render(&board, 2), Err(GameError::InvalidCellValue));
}

#[test]
fn print_cell_counts_and_breaks_lines() {
    let mut frame = String::new();
    let mut iteration = 1;
    print_cell(&mut frame, &mut iteration, 3, "a");
    assert_eq!((frame.as_str(), iteration), ("a", 2));
    print_cell(&mut frame, &mut iteration, 3, "b");
    assert_eq!((frame.as_str(), iteration), ("ab", 3));
    print_cell(&mut frame, &mut iteration, 3, "c");
    assert_eq!((frame.as_str(), iteration), ("abc\n", 4));
    print_cell(&mut frame, &mut iteration, 3, "d");
    assert_eq!((frame.as_str(), iteration), ("abc\nd\n", 5));
}

#[test]
fn print_cell_counter_stops_at_its_largest_value() {
    let mut frame = String::new();
    let mut iteration = u32::MAX - 1;
    print_cell(&mut frame, &mut iteration, u32::MAX, "x");
    assert_eq!((frame.as_str(), iteration), ("x", u32::MAX));
    print_cell(&mut frame, &mut iteration, u32::MAX, "y");
    assert_eq!((frame.as_str(), iteration), ("xy\n", u32::MAX));
    print_cell(&mut frame, &mut iteration, u32::MAX, "z");
    assert_eq!((frame.as_str(), iteration), ("xy\nz\n", u32::MAX));
}

#[test]
fn rendered_frame_shows_two_blocks_for_each_cell() {
    let board = vec![vec![0, 1, 0], vec![1, 0, 1], vec![0, 0, 0], vec![1, 1, 1]];
    let frame = render(&board, 3).unwrap();
    assert_eq!(frame.matches("\u{2588}\u{2588}").count(), 12);
    assert_eq!(frame.matches('\n').count(), 4);
    assert!(frame.ends_with('\n'));
    for line in frame.lines() {
        assert_eq!(line.matches("\u{2588}\u{2588}").count(), 3);
    }
}

#[test]
fn rendered_frame_of_one_cell() {
    let frame = render(&vec![vec![1]], 1).unwrap();
    assert!(frame.contains("\u{2588}\u{2588}"));
    assert!(frame.ends_with('\n'));
    assert_eq!(frame.matches('\n').count(), 1);
}

#[test]
fn random_board_has_the_size_asked_for() {
    for (width, height) in [(1u32, 1u32), (20, 20), (7, 3), (3, 7)] {
        let board = initalize_board(width, height);
        assert_eq!(board.len(), height as usize);
        for row in &board {
            assert_eq!(row.len(), width as usize);
            for cell in row {
                assert!(*cell == 0 || *cell == 1);
            }
        }
        assert!(count_alive_cells(&board).unwrap() <= width * height);
    }
}

#[test]
fn random_board_of_no_size_is_empty() {
    assert_eq!(initalize_board(5, 0), Vec::<Vec<u32>>::new());
    assert_eq!(initalize_board(0, 2), vec![Vec::<u32>::new(), Vec::new()]);
}

#[test]
fn random_board_holds_both_kinds_of_cell() {
    // 4096 draws that all agree would take a generator that does not draw
    let board = initalize_board(64, 64);
    let alive = count_alive_cells(&board).unwrap();
    assert!(alive > 0);
    assert!(alive < 64 * 64);
}

#[test]
fn drawn_cells_are_laid_out_row_after_row() {
    let drawn = [1, 0, 0, 1, 1, 0];
    assert_eq!(board_from_cells(3, 2, &drawn), vec![vec![1, 0, 0], vec![1, 1, 0]]);
    assert_eq!(board_from_cells(2, 3, &drawn), vec![vec![1, 0], vec![0, 1], vec![1, 0]]);
    assert_eq!(board_from_cells(6, 1, &drawn), vec![vec![1, 0, 0, 1, 1, 0]]);
    assert_eq!(board_from_cells(1, 6, &drawn), vec![vec![1], vec![0], vec![0], vec![1], vec![1], vec![0]]);
}

#[test]
fn same_drawn_cells_make_the_same_board() {
    let drawn: Vec<u32> = (0..400u32).map(|k| (k * k + k / 7) % 2).collect();
    let first = board_from_cells(20, 20, &drawn);
    let second = board_from_cells(20, 20, &drawn);
    assert_eq!(first, second);
    for r in 0..20 {
        for c in 0..20 {
            assert_eq!(first[r][c], drawn[r * 20 + c]);
        }
    }
}

#[test]
fn no_drawn_cells_make_an_empty_board() {
    assert_eq!(board_from_cells(0, 0, &[]), Vec::<Vec<u32>>::new());
    assert_eq!(board_from_cells(0, 3, &[]), vec![Vec::<u32>::new(); 3]);
    assert_eq!(board_from_cells(3, 0, &[]), Vec::<Vec<u32>>::new());
}
