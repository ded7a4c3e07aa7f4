//! The mathematical model of a grid: a sequence of rows, each a sequence of
//! cell values, and the Life rule stated over it.

use vstd::prelude::*;

verus! {

/// The rows of a grid as sequences of cell values.
pub open spec fn cells(rows: Seq<Vec<u32>>) -> Seq<Seq<u32>> {
    Seq::new(rows.len(), |r: int| rows[r]@)
}

/// A cell value is `0` (dead) or `1` (alive).
pub open spec fn valid_cell(cell: u32) -> bool {
    cell == 0 || cell == 1
}

/// `g` has exactly `height` rows of exactly `width` cells each.
pub open spec fn is_grid(g: Seq<Seq<u32>>, width: int, height: int) -> bool {
    &&& g.len() == height
    &&& forall|r: int| 0 <= r < g.len() ==> (#[trigger] g[r]).len() == width
}

/// Every cell of `g` is `0` or `1`.
pub open spec fn all_valid(g: Seq<Seq<u32>>) -> bool {
    forall|r: int, c: int| 0 <= r < g.len() && 0 <= c < g[r].len() ==> valid_cell(#[trigger] g[r][c])
}

/// Every cell of `g` is dead.
pub open spec fn all_dead(g: Seq<Seq<u32>>) -> bool {
    forall|r: int, c: int| 0 <= r < g.len() && 0 <= c < g[r].len() ==> #[trigger] g[r][c] == 0
}

/// Every cell of `g` is alive.
pub open spec fn all_alive(g: Seq<Seq<u32>>) -> bool {
    forall|r: int, c: int| 0 <= r < g.len() && 0 <= c < g[r].len() ==> #[trigger] g[r][c] == 1
}

/// `(r, c)` is a position of `g`.
pub open spec fn in_grid(g: Seq<Seq<u32>>, r: int, c: int) -> bool {
    0 <= r < g.len() && 0 <= c < g[r].len()
}

/// What the position `(r, c)` adds to a count of live cells: 1 for a live
/// cell of the grid, 0 for a dead one and for every position outside it.
pub open spec fn alive_at(g: Seq<Seq<u32>>, r: int, c: int) -> int {
    if in_grid(g, r, c) && g[r][c] == 1 {
        1
    } else {
        0
    }
}

/// The position `(r, c)` lies outside the grid or holds `0` or `1`.
pub open spec fn valid_at(g: Seq<Seq<u32>>, r: int, c: int) -> bool {
    in_grid(g, r, c) ==> valid_cell(g[r][c])
}

/// The number of live cells among the eight positions around `(r, c)`.
pub open spec fn alive_neighbours(g: Seq<Seq<u32>>, r: int, c: int) -> int {
    alive_at(g, r - 1, c - 1) + alive_at(g, r - 1, c) + alive_at(g, r - 1, c + 1)
        + alive_at(g, r, c - 1) + alive_at(g, r, c + 1)
        + alive_at(g, r + 1, c - 1) + alive_at(g, r + 1, c) + alive_at(g, r + 1, c + 1)
}

/// The cell at `(r, c)` and the positions around it hold no value other
/// than `0` and `1`.
pub open spec fn neighbourhood_valid(g: Seq<Seq<u32>>, r: int, c: int) -> bool {
    forall|i: int, j: int| r - 1 <= i <= r + 1 && c - 1 <= j <= c + 1 ==> #[trigger] valid_at(g, i, j)
}

/// The Life rule: a live cell survives with two or three live neighbours, a
/// dead cell comes alive with exactly three.
pub open spec fn next_cell(cell: u32, neighbours: int) -> u32 {
    if cell == 1 {
        if neighbours == 2 || neighbours == 3 {
            1
        } else {
            0
        }
    } else {
        if neighbours == 3 {
            1
        } else {
            0
        }
    }
}

/// The generation that follows `g`: every cell is decided from `g` alone.
pub open spec fn next_grid(g: Seq<Seq<u32>>) -> Seq<Seq<u32>> {
    Seq::new(
        g.len(),
        |r: int| Seq::new(g[r].len(), |c: int| next_cell(g[r][c], alive_neighbours(g, r, c))),
    )
}

} // verus!
