//! What holds of the next generation of every grid.

use vstd::prelude::*;
use crate::grid::{
    alive_at, alive_neighbours, all_dead, all_valid, in_grid, is_grid, next_cell, next_grid,
    valid_cell,
};

verus! {

/// The next generation has the shape of the grid it comes from.
pub proof fn lemma_next_grid_shape(g: Seq<Seq<u32>>, width: int, height: int)
    requires
        is_grid(g, width, height),
    ensures
        is_grid(next_grid(g), width, height),
{
    let n = next_grid(g);
    assert forall|r: int| 0 <= r < n.len() implies (#[trigger] n[r]).len() == width by {
        assert(g[r].len() == width);
    }
}

/// The next generation holds only `0` and `1`, whatever the grid held.
pub proof fn lemma_next_grid_valid(g: Seq<Seq<u32>>)
    ensures
        all_valid(next_grid(g)),
{
    let n = next_grid(g);
    assert forall|r: int, c: int| 0 <= r < n.len() && 0 <= c < n[r].len() implies valid_cell(
        #[trigger] n[r][c],
    ) by {
        assert(n[r][c] == next_cell(g[r][c], alive_neighbours(g, r, c)));
    }
}

/// A cell has at most eight live neighbours, and none in a grid without a
/// live cell.
pub proof fn lemma_alive_neighbours_bounds(g: Seq<Seq<u32>>, r: int, c: int)
    ensures
        0 <= alive_neighbours(g, r, c) <= 8,
        all_dead(g) ==> alive_neighbours(g, r, c) == 0,
{
    if all_dead(g) {
        assert forall|i: int, j: int| alive_at(g, i, j) == 0 by {
            if in_grid(g, i, j) {
                assert(g[i][j] == 0);
            }
        }
    }
}

/// Nothing is born in a grid without a live cell: its next generation is
/// all dead too.
pub proof fn lemma_all_dead_stays_dead(g: Seq<Seq<u32>>)
    requires
        all_dead(g),
    ensures
        all_dead(next_grid(g)),
{
    let n = next_grid(g);
    assert forall|r: int, c: int| 0 <= r < n.len() && 0 <= c < n[r].len() implies #[trigger] n[r][c]
        == 0 by {
        lemma_alive_neighbours_bounds(g, r, c);
        assert(g[r][c] == 0);
    }
}

/// A cell with no cell around it dies or stays dead: the one cell of a one
/// by one grid is dead in the next generation.
pub proof fn lemma_single_cell_dies(g: Seq<Seq<u32>>)
    requires
        is_grid(g, 1, 1),
    ensures
        next_grid(g)[0][0] == 0,
        all_dead(next_grid(g)),
{
    assert(g[0].len() == 1);
    assert(alive_neighbours(g, 0, 0) == 0);
    let n = next_grid(g);
    assert forall|r: int, c: int| 0 <= r < n.len() && 0 <= c < n[r].len() implies #[trigger] n[r][c]
        == 0 by {
        assert(r == 0 && c == 0);
    }
}

/// A live cell with no other live cell in the grid dies of it, wherever it
/// stands, a corner included, and nothing is born: the next generation is
/// all dead.
pub proof fn lemma_lone_cell_dies(g: Seq<Seq<u32>>, row: int, column: int)
    requires
        in_grid(g, row, column),
        forall|r: int, c: int|
            0 <= r < g.len() && 0 <= c < g[r].len() && !(r == row && c == column)
                ==> #[trigger] g[r][c] == 0,
    ensures
        all_dead(next_grid(g)),
{
    let n = next_grid(g);
    assert forall|i: int, j: int| !(i == row && j == column) implies #[trigger] alive_at(g, i, j)
        == 0 by {
        if in_grid(g, i, j) {
            assert(g[i][j] == 0);
        }
    }
    assert forall|r: int, c: int| 0 <= r < n.len() && 0 <= c < n[r].len() implies #[trigger] n[r][c]
        == 0 by {
        assert(n[r][c] == next_cell(g[r][c], alive_neighbours(g, r, c)));
        assert(alive_neighbours(g, r, c) <= 1);
    }
}

/// The grid `g` holds a two by two block of live cells with its upper left
/// corner at `(top, left)`, and no other live cell.
pub open spec fn lone_block(g: Seq<Seq<u32>>, top: int, left: int) -> bool {
    &&& in_grid(g, top, left)
    &&& in_grid(g, top + 1, left + 1)
    &&& in_grid(g, top, left + 1)
    &&& in_grid(g, top + 1, left)
    &&& forall|r: int, c: int|
        0 <= r < g.len() && 0 <= c < g[r].len() ==> #[trigger] g[r][c] == if top <= r <= top + 1
            && left <= c <= left + 1 {
            1u32
        } else {
            0u32
        }
}

/// A two by two block of live cells in an otherwise dead grid is a still
/// life: the next generation is the same grid.
pub proof fn lemma_block_is_still(g: Seq<Seq<u32>>, width: int, height: int, top: int, left: int)
    requires
        is_grid(g, width, height),
        lone_block(g, top, left),
    ensures
        next_grid(g) == g,
{
    let n = next_grid(g);
    assert forall|i: int, j: int| #[trigger]
        alive_at(g, i, j) == if top <= i <= top + 1 && left <= j <= left + 1 {
            1int
        } else {
            0int
        } by {
        if top <= i <= top + 1 {
            assert(g[i].len() == width);
            assert(g[top].len() == width);
            assert(g[top + 1].len() == width);
        }
        if in_grid(g, i, j) {
            assert(g[i][j] == if top <= i <= top + 1 && left <= j <= left + 1 {
                1u32
            } else {
                0u32
            });
        }
    }
    assert forall|r: int| 0 <= r < g.len() implies #[trigger] n[r] == g[r] by {
        assert forall|c: int| 0 <= c < g[r].len() implies #[trigger] n[r][c] == g[r][c] by {
            assert(n[r][c] == next_cell(g[r][c], alive_neighbours(g, r, c)));
            assert(g[r][c] == if top <= r <= top + 1 && left <= c <= left + 1 {
                1u32
            } else {
                0u32
            });
        }
        assert(n[r] =~= g[r]);
    }
    assert(n =~= g);
}

/// The grid of `height` rows of `width` cells whose only live cells are
/// three in a line around `(row, column)`: side by side if `horizontal`,
/// one above the other if not.
pub open spec fn blinker(width: int, height: int, row: int, column: int, horizontal: bool) -> Seq<
    Seq<u32>,
> {
    Seq::new(
        height as nat,
        |r: int|
            Seq::new(
                width as nat,
                |c: int|
                    if horizontal && r == row && column - 1 <= c <= column + 1 {
                        1u32
                    } else if !horizontal && c == column && row - 1 <= r <= row + 1 {
                        1u32
                    } else {
                        0u32
                    },
            ),
    )
}

/// Three live cells in a line, in an otherwise dead grid with room around
/// their middle, turn by a quarter with each generation, and so are back
/// after two.
pub proof fn lemma_blinker_oscillates(
    width: int,
    height: int,
    row: int,
    column: int,
    horizontal: bool,
)
    requires
        1 <= row < height - 1,
        1 <= column < width - 1,
    ensures
        next_grid(blinker(width, height, row, column, horizontal)) == blinker(
            width,
            height,
            row,
            column,
            !horizontal,
        ),
        next_grid(next_grid(blinker(width, height, row, column, horizontal))) == blinker(
            width,
            height,
            row,
            column,
            horizontal,
        ),
{
    lemma_blinker_turns(width, height, row, column, horizontal);
    lemma_blinker_turns(width, height, row, column, !horizontal);
}

/// One generation turns the line by a quarter.
proof fn lemma_blinker_turns(width: int, height: int, row: int, column: int, horizontal: bool)
    requires
        1 <= row < height - 1,
        1 <= column < width - 1,
    ensures
        next_grid(blinker(width, height, row, column, horizontal)) == blinker(
            width,
            height,
            row,
            column,
            !horizontal,
        ),
{
    let g = blinker(width, height, row, column, horizontal);
    let turned = blinker(width, height, row, column, !horizontal);
    let n = next_grid(g);
    assert forall|i: int, j: int| #[trigger]
        alive_at(g, i, j) == if horizontal && i == row && column - 1 <= j <= column + 1 {
            1int
        } else if !horizontal && j == column && row - 1 <= i <= row + 1 {
            1int
        } else {
            0int
        } by {
        if 0 <= i < height {
            assert(g[i].len() == width);
        }
    }
    assert forall|r: int| 0 <= r < height implies #[trigger] n[r] == turned[r] by {
        assert(g[r].len() == width);
        assert forall|c: int| 0 <= c < width implies #[trigger] n[r][c] == turned[r][c] by {
            assert(n[r][c] == next_cell(g[r][c], alive_neighbours(g, r, c)));
        }
        assert(n[r] =~= turned[r]);
    }
    assert(n =~= turned);
}

} // verus!
