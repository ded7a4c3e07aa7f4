//! One generation step on a grid.

use vstd::prelude::*;
use crate::error::GameError;
use crate::grid::{
    alive_at, alive_neighbours, all_valid, cells, in_grid, is_grid, neighbourhood_valid, next_cell,
    next_grid, valid_at, valid_cell,
};

verus! {

/// The `k`-th position of the three by three window around a cell, row by
/// row, adds its live cell to the count, except the centre (the fifth).
spec fn window_term(g: Seq<Seq<u32>>, r: int, c: int, k: int) -> int {
    if k == 4 {
        0
    } else {
        alive_at(g, r + k / 3 - 1, c + k % 3 - 1)
    }
}

/// The `k`-th position of the window holds no value other than `0` and `1`.
spec fn window_valid(g: Seq<Seq<u32>>, r: int, c: int, k: int) -> bool {
    valid_at(g, r + k / 3 - 1, c + k % 3 - 1)
}

/// The live neighbours among the first `k` positions of the window.
spec fn window_sum(g: Seq<Seq<u32>>, r: int, c: int, k: int) -> int
    decreases k,
{
    if k <= 0 {
        0
    } else {
        window_sum(g, r, c, k - 1) + window_term(g, r, c, k - 1)
    }
}

/// The whole window, less its centre, holds the eight neighbours.
proof fn lemma_window_sum_full(g: Seq<Seq<u32>>, r: int, c: int)
    ensures
        window_sum(g, r, c, 9) == alive_neighbours(g, r, c),
{
    reveal_with_fuel(window_sum, 10);
}

/// The index `position + mutator - 1`, where it lies below `bound`.
fn neighbour_index(position: usize, mutator: usize, bound: u32) -> (index: Option<usize>)
    requires
        position < bound,
        mutator < 3,
    ensures
        index is Some <==> 0 <= position + mutator - 1 < bound,
        index matches Some(i) ==> i == position + mutator - 1,
{
    if mutator == 0 {
        if position >= 1 {
            Some(position - 1)
        } else {
            None
        }
    } else if mutator == 1 {
        Some(position)
    } else if position + 1 < bound as usize {
        Some(position + 1)
    } else {
        None
    }
}

/// Decides what the cell at `(row, column)` is in the next generation.
///
/// The count runs over the eight positions around the cell that lie inside
/// the grid. A value other than `0` or `1` in the cell or around it is
/// reported, never read as dead.
pub fn compute_cell_state(
    temporary_board: &[Vec<u32>],
    row: usize,
    column: usize,
    width: u32,
    height: u32,
) -> (result: Result<u32, GameError>)
    requires
        is_grid(cells(temporary_board@), width as int, height as int),
        row < height,
        column < width,
    ensures
        neighbourhood_valid(cells(temporary_board@), row as int, column as int) ==> result == Ok::<
            u32,
            GameError,
        >(
            next_cell(
                cells(temporary_board@)[row as int][column as int],
                alive_neighbours(cells(temporary_board@), row as int, column as int),
            ),
        ),
        !neighbourhood_valid(cells(temporary_board@), row as int, column as int) ==> result == Err::<
            u32,
            GameError,
        >(GameError::InvalidCellValue),
{
    let ghost g = cells(temporary_board@);
    let ghost r = row as int;
    let ghost c = column as int;
    let mut alive_neighbours: u32 = 0;
    let mut row_mutator: usize = 0;
    while row_mutator < 3
        invariant
            g == cells(temporary_board@),
            r == row,
            c == column,
            is_grid(g, width as int, height as int),
            row < height,
            column < width,
            row_mutator <= 3,
            alive_neighbours <= 3 * row_mutator,
            alive_neighbours == window_sum(g, r, c, 3 * row_mutator),
            forall|k: int| 0 <= k < 3 * row_mutator ==> window_valid(g, r, c, k),
        decreases 3 - row_mutator,
    {
        let mut column_mutator: usize = 0;
        while column_mutator < 3
            invariant
                g == cells(temporary_board@),
                r == row,
                c == column,
                is_grid(g, width as int, height as int),
                row < height,
                column < width,
                row_mutator < 3,
                column_mutator <= 3,
                alive_neighbours <= 3 * row_mutator + column_mutator,
                alive_neighbours == window_sum(g, r, c, 3 * row_mutator + column_mutator),
                forall|k: int| 0 <= k < 3 * row_mutator + column_mutator ==> window_valid(g, r, c, k),
            decreases 3 - column_mutator,
        {
            let ghost k = 3 * row_mutator + column_mutator;
            assert(k / 3 == row_mutator && k % 3 == column_mutator);
            let neighbour_row = neighbour_index(row, row_mutator, height);
            let neighbour_column = neighbour_index(column, column_mutator, width);
            if let (Some(i), Some(j)) = (neighbour_row, neighbour_column) {
                assert(g[i as int].len() == width);
                let cell = temporary_board[i][j];
                if cell > 1 {
                    assert(!valid_at(g, i as int, j as int));
                    assert(r - 1 <= i <= r + 1 && c - 1 <= j <= c + 1);
                    return Err(GameError::InvalidCellValue);
                }
                if cell == 1 && !(row_mutator == 1 && column_mutator == 1) {
                    alive_neighbours += 1;
                }
            }
            column_mutator += 1;
        }
        row_mutator += 1;
    }
    assert(g[r].len() == width);
    let current_cell = temporary_board[row][column];
    proof {
        lemma_window_sum_full(g, r, c);
        assert forall|i: int, j: int| r - 1 <= i <= r + 1 && c - 1 <= j <= c + 1 implies valid_at(
            g,
            i,
            j,
        ) by {
            let k = 3 * (i - r + 1) + (j - c + 1);
            assert(k / 3 == i - r + 1 && k % 3 == j - c + 1);
            assert(window_valid(g, r, c, k));
        }
    }
    if current_cell == 1 {
        if alive_neighbours == 2 || alive_neighbours == 3 {
            Ok(1)
        } else {
            Ok(0)
        }
    } else if alive_neighbours == 3 {
        Ok(1)
    } else {
        Ok(0)
    }
}

/// In a grid whose cells are all `0` or `1`, so is every neighbourhood.
proof fn lemma_all_valid_neighbourhood(g: Seq<Seq<u32>>, r: int, c: int)
    requires
        all_valid(g),
    ensures
        neighbourhood_valid(g, r, c),
{
    assert forall|i: int, j: int| r - 1 <= i <= r + 1 && c - 1 <= j <= c + 1 implies #[trigger] valid_at(
        g,
        i,
        j,
    ) by {
        if in_grid(g, i, j) {
            assert(valid_cell(g[i][j]));
        }
    }
}

/// Computes the generation that follows a grid, as a grid of its own.
///
/// Every cell is decided from `board` alone, which is only read. A cell
/// that holds a value other than `0` or `1` is reported.
pub fn next_generation(board: &[Vec<u32>], width: u32, height: u32) -> (result: Result<
    Vec<Vec<u32>>,
    GameError,
>)
    requires
        is_grid(cells(board@), width as int, height as int),
    ensures
        all_valid(cells(board@)) ==> result is Ok && cells(result->Ok_0@) == next_grid(cells(board@)),
        !all_valid(cells(board@)) ==> result == Err::<Vec<Vec<u32>>, GameError>(
            GameError::InvalidCellValue,
        ),
{
    let ghost g = cells(board@);
    let mut next: Vec<Vec<u32>> = Vec::new();
    let mut row: usize = 0;
    while row < height as usize
        invariant
            g == cells(board@),
            is_grid(g, width as int, height as int),
            row <= height,
            next.len() == row,
            forall|i: int| 0 <= i < row ==> (#[trigger] next[i])@ == next_grid(g)[i],
            forall|i: int, j: int| 0 <= i < row && 0 <= j < width ==> #[trigger] valid_at(g, i, j),
        decreases height - row,
    {
        let mut new_row: Vec<u32> = Vec::new();
        let mut column: usize = 0;
        assert(g[row as int].len() == width);
        while column < width as usize
            invariant
                g == cells(board@),
                is_grid(g, width as int, height as int),
                g[row as int].len() == width,
                row < height,
                column <= width,
                new_row.len() == column,
                forall|j: int| 0 <= j < column ==> #[trigger] new_row[j] == next_grid(g)[row as int][j],
                forall|j: int| 0 <= j < column ==> #[trigger] valid_at(g, row as int, j),
            decreases width - column,
        {
            match compute_cell_state(board, row, column, width, height) {
                Ok(state) => {
                    new_row.push(state);
                },
                Err(error) => {
                    proof {
                        if all_valid(g) {
                            lemma_all_valid_neighbourhood(g, row as int, column as int);
                        }
                    }
                    return Err(error);
                },
            }
            assert(valid_at(g, row as int, column as int));
            column += 1;
        }
        assert(new_row@ =~= next_grid(g)[row as int]);
        next.push(new_row);
        row += 1;
    }
    proof {
        assert forall|i: int, j: int| 0 <= i < g.len() && 0 <= j < g[i].len() implies valid_cell(
            #[trigger] g[i][j],
        ) by {
            assert(valid_at(g, i, j));
        }
        assert(cells(next@) =~= next_grid(g));
    }
    Ok(next)
}

/// Replaces a grid by its next generation and counts the generation.
///
/// Every cell is decided from the grid as it was on entry. If a cell holds
/// a value other than `0` or `1`, the grid and the counter stay as they were.
pub fn next_iteration(
    board: &mut Vec<Vec<u32>>,
    width: u32,
    height: u32,
    generation: &mut u64,
) -> (result: Result<(), GameError>)
    requires
        is_grid(cells(old(board)@), width as int, height as int),
        *old(generation) < u64::MAX,
    ensures
        all_valid(cells(old(board)@)) ==> {
            &&& result is Ok
            &&& cells(final(board)@) == next_grid(cells(old(board)@))
            &&& *final(generation) == *old(generation) + 1
        },
        !all_valid(cells(old(board)@)) ==> {
            &&& result == Err::<(), GameError>(GameError::InvalidCellValue)
            &&& *final(board) == *old(board)
            &&& *final(generation) == *old(generation)
        },
{
    match next_generation(board.as_slice(), width, height) {
        Ok(next) => {
            *board = next;
            *generation += 1;
            Ok(())
        },
        Err(error) => Err(error),
    }
}

} // verus!
