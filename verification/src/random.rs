//! A grid filled at random.

use vstd::prelude::*;
use rand::Rng;
use crate::grid::{all_valid, cells, is_grid, valid_cell};

verus! {

/// Draws a number from `low` to `high`, both ends included, by `rand`'s
/// `Rng::gen_range` on the thread's generator: the sample lies in the
/// range. Which number of the range it is, nothing says.
#[verifier::external_body]
fn random_between(low: u32, high: u32) -> (sample: u32)
    requires
        low <= high,
    ensures
        low <= sample <= high,
{
    rand::thread_rng().gen_range(low..=high)
}

/// Lays cells out as a grid of `height` rows of `width` cells, row after
/// row: the cell at `(r, c)` is the one drawn at `r * width + c`.
pub fn board_from_cells(width: u32, height: u32, drawn: &[u32]) -> (board: Vec<Vec<u32>>)
    requires
        drawn@.len() == width * height,
    ensures
        is_grid(cells(board@), width as int, height as int),
        forall|r: int, c: int|
            0 <= r < height && 0 <= c < width ==> #[trigger] cells(board@)[r][c] == drawn@[r * width
                + c],
        (forall|k: int| 0 <= k < drawn@.len() ==> valid_cell(#[trigger] drawn@[k])) ==> all_valid(
            cells(board@),
        ),
{
    let mut board: Vec<Vec<u32>> = Vec::new();
    let mut next: usize = 0;
    let mut i: u32 = 0;
    while i < height
        invariant
            drawn@.len() == width * height,
            i <= height,
            next == i * width,
            board.len() == i,
            forall|r: int| 0 <= r < i ==> (#[trigger] board[r]).len() == width,
            forall|r: int, c: int|
                0 <= r < i && 0 <= c < width ==> #[trigger] board[r][c] == drawn@[r * width + c],
        decreases height - i,
    {
        let mut row: Vec<u32> = Vec::new();
        let mut j: u32 = 0;
        while j < width
            invariant
                drawn@.len() == width * height,
                i < height,
                j <= width,
                next == i * width + j,
                row.len() == j,
                forall|c: int| 0 <= c < j ==> #[trigger] row[c] == drawn@[i * width + c],
            decreases width - j,
        {
            assert(i * width + j < width * height) by (nonlinear_arith)
                requires
                    0 <= i < height,
                    0 <= j < width,
            ;
            row.push(drawn[next]);
            next += 1;
            j += 1;
        }
        assert((i + 1) * width == i * width + width) by (nonlinear_arith);
        board.push(row);
        i += 1;
    }
    proof {
        let g = cells(board@);
        assert forall|r: int| 0 <= r < g.len() implies (#[trigger] g[r]).len() == width by {
            assert(board[r].len() == width);
        }
        assert forall|r: int, c: int| 0 <= r < height && 0 <= c < width implies #[trigger] g[r][c]
            == drawn@[r * width + c] by {
            assert(board[r][c] == drawn@[r * width + c]);
        }
        if forall|k: int| 0 <= k < drawn@.len() ==> valid_cell(#[trigger] drawn@[k]) {
            assert forall|r: int, c: int| 0 <= r < g.len() && 0 <= c < g[r].len() implies valid_cell(
                #[trigger] g[r][c],
            ) by {
                assert(g[r].len() == width);
                assert(r * width + c < width * height) by (nonlinear_arith)
                    requires
                        0 <= r < height,
                        0 <= c < width,
                ;
                assert(0 <= r * width + c) by (nonlinear_arith)
                    requires
                        0 <= r,
                        0 <= c,
                        0 <= width,
                ;
                assert(g[r][c] == drawn@[r * width + c]);
            }
        }
    }
    board
}

/// Makes a grid of `height` rows of `width` cells, each drawn on its own,
/// dead or alive with equal chance.
pub fn initalize_board(width: u32, height: u32) -> (board: Vec<Vec<u32>>)
    ensures
        is_grid(cells(board@), width as int, height as int),
        all_valid(cells(board@)),
{
    let mut drawn: Vec<u32> = Vec::new();
    let mut i: u32 = 0;
    while i < height
        invariant
            i <= height,
            drawn@.len() == i * width,
            forall|k: int| 0 <= k < drawn@.len() ==> valid_cell(#[trigger] drawn@[k]),
        decreases height - i,
    {
        let mut j: u32 = 0;
        while j < width
            invariant
                i < height,
                j <= width,
                drawn@.len() == i * width + j,
                forall|k: int| 0 <= k < drawn@.len() ==> valid_cell(#[trigger] drawn@[k]),
            decreases width - j,
        {
            let cell_state = random_between(0, 1);
            drawn.push(cell_state);
            j += 1;
        }
        assert((i + 1) * width == i * width + width) by (nonlinear_arith);
        i += 1;
    }
    assert(i * width == width * height) by (nonlinear_arith)
        requires
            i == height,
    ;
    board_from_cells(width, height, drawn.as_slice())
}

} // verus!
