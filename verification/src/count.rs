//! Counting the live cells of a grid.

use vstd::prelude::*;
use vstd::set_lib::lemma_set_disjoint_lens;
use crate::error::GameError;
use crate::grid::{all_alive, all_dead, all_valid, cells, in_grid, is_grid, valid_cell};

verus! {

/// The number of cells of `row` that hold `1`.
pub open spec fn row_alive(row: Seq<u32>) -> nat
    decreases row.len(),
{
    if row.len() == 0 {
        0
    } else {
        row_alive(row.drop_last()) + if row.last() == 1 {
            1nat
        } else {
            0nat
        }
    }
}

/// The number of cells of `g` that hold `1`.
pub open spec fn alive_count(g: Seq<Seq<u32>>) -> nat
    decreases g.len(),
{
    if g.len() == 0 {
        0
    } else {
        alive_count(g.drop_last()) + row_alive(g.last())
    }
}

/// A row holds no more live cells than cells, as many only if all are
/// alive, and none only if no cell holds `1`.
pub proof fn lemma_row_alive(row: Seq<u32>)
    ensures
        row_alive(row) <= row.len(),
        row_alive(row) == row.len() <==> forall|c: int| 0 <= c < row.len() ==> row[c] == 1,
        row_alive(row) == 0 <==> forall|c: int| 0 <= c < row.len() ==> row[c] != 1,
    decreases row.len(),
{
    if row.len() > 0 {
        let front = row.drop_last();
        lemma_row_alive(front);
        assert forall|c: int| 0 <= c < front.len() implies front[c] == row[c] by {}
        if row_alive(row) == row.len() {
            assert forall|c: int| 0 <= c < row.len() implies row[c] == 1 by {
                if c < front.len() {
                    assert(front[c] == 1);
                }
            }
        }
        if row_alive(row) == 0 {
            assert forall|c: int| 0 <= c < row.len() implies row[c] != 1 by {
                if c < front.len() {
                    assert(front[c] != 1);
                }
            }
        }
    }
}

/// A grid of `height` rows of `width` cells holds at most `width * height`
/// live cells.
pub proof fn lemma_alive_count_bound(g: Seq<Seq<u32>>, width: int, height: int)
    requires
        is_grid(g, width, height),
    ensures
        alive_count(g) <= width * height,
    decreases g.len(),
{
    if g.len() > 0 {
        let front = g.drop_last();
        assert forall|r: int| 0 <= r < front.len() implies (#[trigger] front[r]).len() == width by {
            assert(front[r] == g[r]);
        }
        lemma_alive_count_bound(front, width, height - 1);
        lemma_row_alive(g.last());
        assert(g[g.len() - 1].len() == width);
        assert(width * (height - 1) + width == width * height) by (nonlinear_arith);
    } else {
        assert(width * height == 0) by (nonlinear_arith)
            requires
                height == 0,
        ;
    }
}

/// A grid in which every cell is dead holds no live cell.
pub proof fn lemma_count_all_dead(g: Seq<Seq<u32>>)
    requires
        all_dead(g),
    ensures
        alive_count(g) == 0,
    decreases g.len(),
{
    if g.len() > 0 {
        let front = g.drop_last();
        assert forall|r: int, c: int| 0 <= r < front.len() && 0 <= c < front[r].len() implies #[trigger] front[r][c] == 0 by {
            assert(front[r] == g[r]);
            assert(g[r][c] == 0);
        }
        lemma_count_all_dead(front);
        let last = g.last();
        lemma_row_alive(last);
        assert forall|c: int| 0 <= c < last.len() implies last[c] != 1 by {
            assert(g[g.len() - 1][c] == 0);
        }
    }
}

/// A grid of `height` rows of `width` cells in which every cell is alive
/// holds `width * height` live cells.
pub proof fn lemma_count_all_alive(g: Seq<Seq<u32>>, width: int, height: int)
    requires
        is_grid(g, width, height),
        all_alive(g),
    ensures
        alive_count(g) == width * height,
    decreases g.len(),
{
    if g.len() > 0 {
        let front = g.drop_last();
        assert forall|r: int| 0 <= r < front.len() implies (#[trigger] front[r]).len() == width by {
            assert(front[r] == g[r]);
        }
        assert forall|r: int, c: int| 0 <= r < front.len() && 0 <= c < front[r].len() implies #[trigger] front[r][c] == 1 by {
            assert(front[r] == g[r]);
            assert(g[r][c] == 1);
        }
        lemma_count_all_alive(front, width, height - 1);
        let last = g.last();
        lemma_row_alive(last);
        assert forall|c: int| 0 <= c < last.len() implies last[c] == 1 by {
            assert(g[g.len() - 1][c] == 1);
        }
        assert(g[g.len() - 1].len() == width);
        assert(width * (height - 1) + width == width * height) by (nonlinear_arith);
    } else {
        assert(width * height == 0) by (nonlinear_arith)
            requires
                height == 0,
        ;
    }
}

/// A grid holds no live cell exactly when none of its cells holds `1`.
pub proof fn lemma_count_zero(g: Seq<Seq<u32>>)
    ensures
        alive_count(g) == 0 <==> forall|r: int, c: int|
            0 <= r < g.len() && 0 <= c < g[r].len() ==> #[trigger] g[r][c] != 1,
    decreases g.len(),
{
    if g.len() > 0 {
        let front = g.drop_last();
        let last = g.last();
        lemma_count_zero(front);
        lemma_row_alive(last);
        assert forall|r: int| 0 <= r < front.len() implies front[r] == g[r] by {}
        if alive_count(g) == 0 {
            assert forall|r: int, c: int| 0 <= r < g.len() && 0 <= c < g[r].len() implies #[trigger] g[r][c] != 1 by {
                if r < front.len() {
                    assert(front[r][c] != 1);
                } else {
                    assert(last[c] != 1);
                }
            }
        }
        if forall|r: int, c: int| 0 <= r < g.len() && 0 <= c < g[r].len() ==> #[trigger] g[r][c] != 1 {
            assert forall|r: int, c: int| 0 <= r < front.len() && 0 <= c < front[r].len() implies #[trigger] front[r][c] != 1 by {
                assert(g[r][c] != 1);
            }
            assert forall|c: int| 0 <= c < last.len() implies last[c] != 1 by {
                assert(g[g.len() - 1][c] != 1);
            }
        }
    }
}

/// The positions of `g` that hold `1`.
pub open spec fn live_positions(g: Seq<Seq<u32>>) -> Set<(int, int)> {
    Set::new(|p: (int, int)| in_grid(g, p.0, p.1) && g[p.0][p.1] == 1)
}

/// The positions `(r, c)` at which `row` holds `1` at index `c`.
spec fn live_in_row(row: Seq<u32>, r: int) -> Set<(int, int)> {
    Set::new(|p: (int, int)| p.0 == r && 0 <= p.1 < row.len() && row[p.1] == 1)
}

/// A row has as many positions that hold `1` as it counts live cells.
proof fn lemma_live_in_row(row: Seq<u32>, r: int)
    ensures
        live_in_row(row, r).finite(),
        live_in_row(row, r).len() == row_alive(row),
    decreases row.len(),
{
    if row.len() == 0 {
        assert(live_in_row(row, r) =~= Set::<(int, int)>::empty());
    } else {
        let front = row.drop_last();
        lemma_live_in_row(front, r);
        if row.last() == 1 {
            assert(live_in_row(row, r) =~= live_in_row(front, r).insert((r, row.len() - 1)));
        } else {
            assert(live_in_row(row, r) =~= live_in_row(front, r));
        }
    }
}

/// The count of live cells is the number of positions that hold `1`.
pub proof fn lemma_count_is_cardinality(g: Seq<Seq<u32>>)
    ensures
        live_positions(g).finite(),
        live_positions(g).len() == alive_count(g),
    decreases g.len(),
{
    if g.len() == 0 {
        assert(live_positions(g) =~= Set::<(int, int)>::empty());
    } else {
        let front = g.drop_last();
        let last = live_in_row(g.last(), g.len() - 1);
        lemma_count_is_cardinality(front);
        lemma_live_in_row(g.last(), g.len() - 1);
        assert(live_positions(g) =~= live_positions(front) + last);
        assert(live_positions(front).disjoint(last));
        lemma_set_disjoint_lens(live_positions(front), last);
    }
}

/// Counts the live cells of a grid.
///
/// The count is that of the cells holding `1`. A cell that holds neither
/// `0` nor `1` is reported, whatever the other cells hold; failing that, a
/// count that does not fit in 32 bits is reported.
pub fn count_alive_cells(board: &[Vec<u32>]) -> (result: Result<u32, GameError>)
    ensures
        !all_valid(cells(board@)) ==> result == Err::<u32, GameError>(GameError::InvalidCellValue),
        all_valid(cells(board@)) && alive_count(cells(board@)) > u32::MAX ==> result == Err::<
            u32,
            GameError,
        >(GameError::TooManyCells),
        all_valid(cells(board@)) && alive_count(cells(board@)) <= u32::MAX ==> result == Ok::<
            u32,
            GameError,
        >(alive_count(cells(board@)) as u32),
{
    let ghost g = cells(board@);
    let mut alive_cells: u32 = 0;
    let mut overflow = false;
    let mut r: usize = 0;
    while r < board.len()
        invariant
            g == cells(board@),
            r <= board.len(),
            !overflow ==> alive_cells == alive_count(g.take(r as int)),
            overflow ==> alive_count(g.take(r as int)) > u32::MAX,
            forall|i: int, j: int| 0 <= i < r && 0 <= j < g[i].len() ==> valid_cell(#[trigger] g[i][j]),
        decreases board.len() - r,
    {
        let row = &board[r];
        let ghost cells_of_row = g[r as int];
        let ghost before = alive_count(g.take(r as int));
        let mut c: usize = 0;
        while c < row.len()
            invariant
                g == cells(board@),
                r < board.len(),
                row@ == cells_of_row,
                cells_of_row == g[r as int],
                c <= row.len(),
                before == alive_count(g.take(r as int)),
                !overflow ==> alive_cells == before + row_alive(cells_of_row.take(c as int)),
                overflow ==> before + row_alive(cells_of_row.take(c as int)) > u32::MAX,
                forall|j: int| 0 <= j < c ==> valid_cell(#[trigger] cells_of_row[j]),
            decreases row.len() - c,
        {
            let cell = row[c];
            assert(cells_of_row.take(c + 1).drop_last() =~= cells_of_row.take(c as int));
            if cell == 1 {
                if alive_cells == u32::MAX {
                    overflow = true;
                } else {
                    alive_cells += 1;
                }
            } else if cell != 0 {
                assert(!valid_cell(g[r as int][c as int]));
                return Err(GameError::InvalidCellValue);
            }
            c += 1;
        }
        proof {
            assert(cells_of_row.take(c as int) =~= cells_of_row);
            assert(g.take(r + 1).drop_last() =~= g.take(r as int));
        }
        r += 1;
    }
    proof {
        assert(g.take(r as int) =~= g);
    }
    if overflow {
        Err(GameError::TooManyCells)
    } else {
        Ok(alive_cells)
    }
}

} // verus!
