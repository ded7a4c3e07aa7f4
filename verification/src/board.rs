//! The board: a grid with its dimensions, its generation counter and its
//! count of live cells.

use vstd::prelude::*;
use vstd::pervasive::unreached;
use crate::count::{alive_count, count_alive_cells, lemma_alive_count_bound, lemma_count_zero};
use crate::engine::next_generation;
use crate::error::GameError;
use crate::grid::{all_dead, all_valid, cells, is_grid, next_grid, valid_cell};
use crate::laws::{lemma_next_grid_shape, lemma_next_grid_valid};

verus! {

/// Whether the game goes on.
#[derive(Debug, Clone, Copy, PartialEq, Eq)]
pub enum RunState {
    /// Some cell is alive: there is a next frame to show.
    Running,
    /// No cell is alive: the game is over.
    Ended,
}

/// What a board is, mathematically.
pub struct BoardView {
    pub width: nat,
    pub height: nat,
    pub grid: Seq<Seq<u32>>,
    pub generation: nat,
    pub alive_cells: nat,
}

impl BoardView {
    /// The board's invariant: a non-empty rectangle of cells that are `0`
    /// or `1`, small enough for the cell counter, with the live cells
    /// counted and the generations counted from one.
    pub open spec fn wf(self) -> bool {
        &&& self.width > 0
        &&& self.height > 0
        &&& self.width * self.height <= u32::MAX
        &&& is_grid(self.grid, self.width as int, self.height as int)
        &&& all_valid(self.grid)
        &&& self.alive_cells == alive_count(self.grid)
        &&& self.generation >= 1
    }

    /// The board that holds `grid` at its first generation.
    pub open spec fn fresh(grid: Seq<Seq<u32>>) -> BoardView {
        BoardView {
            width: grid[0].len(),
            height: grid.len(),
            grid,
            generation: 1,
            alive_cells: alive_count(grid),
        }
    }

    /// The board one generation later.
    pub open spec fn step(self) -> BoardView {
        BoardView {
            width: self.width,
            height: self.height,
            grid: next_grid(self.grid),
            generation: self.generation + 1,
            alive_cells: alive_count(next_grid(self.grid)),
        }
    }

    /// The board `n` generations later.
    pub open spec fn steps(self, n: nat) -> BoardView
        decreases n,
    {
        if n == 0 {
            self
        } else {
            self.steps((n - 1) as nat).step()
        }
    }

    /// The game is over once no cell is alive.
    pub open spec fn run_state(self) -> RunState {
        if self.alive_cells == 0 {
            RunState::Ended
        } else {
            RunState::Running
        }
    }
}

/// The row `r` of `rows` is not as long as the first row.
pub open spec fn ragged_at<T>(rows: Seq<Seq<T>>, r: int) -> bool {
    0 <= r < rows.len() && rows[r].len() != rows[0].len()
}

/// The row `r` of `rows` is the first that is not as long as the first row.
pub open spec fn first_ragged<T>(rows: Seq<Seq<T>>, r: int) -> bool {
    ragged_at(rows, r) && forall|i: int| 0 <= i < r ==> !ragged_at(rows, i)
}

/// Where a row is not as long as the first row, there is a first such row,
/// and only one.
pub proof fn lemma_first_ragged<T>(rows: Seq<Seq<T>>, r: int)
    requires
        ragged_at(rows, r),
    ensures
        first_ragged(rows, choose|k: int| first_ragged(rows, k)),
        forall|k: int| first_ragged(rows, k) ==> k == choose|k: int| first_ragged(rows, k),
    decreases r,
{
    if exists|i: int| 0 <= i < r && ragged_at(rows, i) {
        let i = choose|i: int| 0 <= i < r && ragged_at(rows, i);
        lemma_first_ragged(rows, i);
    } else {
        assert(first_ragged(rows, r));
    }
    let first = choose|k: int| first_ragged(rows, k);
    assert forall|k: int| first_ragged(rows, k) implies k == first by {
        if k < first {
            assert(!ragged_at(rows, k));
        }
        if first < k {
            assert(!ragged_at(rows, first));
        }
    }
}

/// Why `g` cannot be the grid of a board, if it cannot: it has no row, or a
/// row (the first such, counted from one) is not as long as the first row,
/// or its rows are empty, or a cell is neither `0` nor `1`, or there are
/// too many cells.
pub open spec fn grid_fault(g: Seq<Seq<u32>>) -> Option<GameError> {
    if g.len() == 0 {
        Some(GameError::EmptyInput)
    } else if exists|r: int| ragged_at(g, r) {
        let r = choose|r: int| first_ragged(g, r);
        Some(
            GameError::InconsistentRowWidth {
                line: (r + 1) as usize,
                expected: g[0].len() as usize,
                actual: g[r].len() as usize,
            },
        )
    } else if g[0].len() == 0 {
        Some(GameError::EmptyInput)
    } else if !all_valid(g) {
        Some(GameError::InvalidCellValue)
    } else if g.len() * g[0].len() > u32::MAX {
        Some(GameError::TooManyCells)
    } else {
        None
    }
}

/// A grid with its dimensions, its generation and its count of live cells.
#[derive(Debug)]
pub struct Board {
    width: u32,
    height: u32,
    state: Vec<Vec<u32>>,
    generation: u64,
    alive_cells: u32,
}

impl View for Board {
    type V = BoardView;

    closed spec fn view(&self) -> BoardView {
        BoardView {
            width: self.width as nat,
            height: self.height as nat,
            grid: cells(self.state@),
            generation: self.generation as nat,
            alive_cells: self.alive_cells as nat,
        }
    }
}

impl Board {
    #[verifier::type_invariant]
    spec fn inv(self) -> bool {
        self@.wf()
    }

    /// Makes a board at its first generation from a grid.
    pub fn new(state: Vec<Vec<u32>>) -> (result: Result<Board, GameError>)
        ensures
            match result {
                Ok(board) => grid_fault(cells(state@)) is None && board@ == BoardView::fresh(
                    cells(state@),
                ) && board@.wf(),
                Err(error) => grid_fault(cells(state@)) == Some(error),
            },
    {
        let ghost g = cells(state@);
        if state.len() == 0 {
            return Err(GameError::EmptyInput);
        }
        let columns = state[0].len();
        let mut r: usize = 0;
        while r < state.len()
            invariant
                g == cells(state@),
                state.len() > 0,
                columns == g[0].len(),
                r <= state.len(),
                forall|i: int| 0 <= i < r ==> !ragged_at(g, i),
            decreases state.len() - r,
        {
            let found = state[r].len();
            if found != columns {
                proof {
                    assert(first_ragged(g, r as int));
                    lemma_first_ragged(g, r as int);
                }
                return Err(
                    GameError::InconsistentRowWidth { line: r + 1, expected: columns, actual: found },
                );
            }
            r += 1;
        }
        assert(is_grid(g, columns as int, state.len() as int)) by {
            assert forall|i: int| 0 <= i < g.len() implies (#[trigger] g[i]).len() == columns by {
                assert(!ragged_at(g, i));
            }
        }
        if columns == 0 {
            return Err(GameError::EmptyInput);
        }
        proof {
            lemma_alive_count_bound(g, columns as int, state.len() as int);
            assert(columns as int * state.len() as int == state.len() * columns) by (nonlinear_arith);
        }
        let alive_cells = match count_alive_cells(state.as_slice()) {
            Ok(n) => n,
            Err(error) => {
                return Err(error);
            },
        };
        if state.len() > u32::MAX as usize || columns > u32::MAX as usize {
            assert(state.len() * columns > u32::MAX) by (nonlinear_arith)
                requires
                    state.len() > 0,
                    columns > 0,
                    state.len() > u32::MAX || columns > u32::MAX,
            ;
            return Err(GameError::TooManyCells);
        }
        let height = state.len() as u32;
        let width = columns as u32;
        assert(width * height <= u32::MAX * u32::MAX) by (nonlinear_arith)
            requires
                0 <= width <= u32::MAX,
                0 <= height <= u32::MAX,
        ;
        if width as u64 * height as u64 > u32::MAX as u64 {
            return Err(GameError::TooManyCells);
        }
        Ok(Board { width, height, state, generation: 1, alive_cells })
    }

    /// The number of cells in a row.
    pub fn width(&self) -> (width: u32)
        ensures
            width == self@.width,
            self@.wf(),
    {
        proof {
            use_type_invariant(self);
        }
        self.width
    }

    /// The number of rows.
    pub fn height(&self) -> (height: u32)
        ensures
            height == self@.height,
            self@.wf(),
    {
        proof {
            use_type_invariant(self);
        }
        self.height
    }

    /// The grid, row by row.
    pub fn state(&self) -> (state: &Vec<Vec<u32>>)
        ensures
            cells(state@) == self@.grid,
            self@.wf(),
    {
        proof {
            use_type_invariant(self);
        }
        &self.state
    }

    /// The number of the generation that the board holds, counted from one.
    pub fn generation(&self) -> (generation: u64)
        ensures
            generation == self@.generation,
            self@.wf(),
    {
        proof {
            use_type_invariant(self);
        }
        self.generation
    }

    /// The number of live cells.
    pub fn alive_cells(&self) -> (alive_cells: u32)
        ensures
            alive_cells == self@.alive_cells,
            self@.wf(),
    {
        proof {
            use_type_invariant(self);
        }
        self.alive_cells
    }

    /// Whether the game goes on: it is over once no cell is alive.
    pub fn run_state(&self) -> (state: RunState)
        ensures
            state == self@.run_state(),
            self@.wf(),
    {
        proof {
            use_type_invariant(self);
        }
        if self.alive_cells == 0 {
            RunState::Ended
        } else {
            RunState::Running
        }
    }

    /// Moves the board to its next generation: the grid is replaced, the
    /// generation counted and the live cells counted anew. The generation
    /// counter must have room for one more.
    pub fn step(&mut self)
        requires
            old(self)@.generation < u64::MAX,
        ensures
            final(self)@ == old(self)@.step(),
            final(self)@.wf(),
    {
        proof {
            use_type_invariant(&*self);
            lemma_next_grid_shape(self@.grid, self.width as int, self.height as int);
            lemma_next_grid_valid(self@.grid);
            lemma_alive_count_bound(next_grid(self@.grid), self.width as int, self.height as int);
        }
        let next = match next_generation(self.state.as_slice(), self.width, self.height) {
            Ok(next) => next,
            Err(_) => unreached(),
        };
        let alive_cells = match count_alive_cells(next.as_slice()) {
            Ok(n) => n,
            Err(_) => unreached(),
        };
        *self = Board {
            width: self.width,
            height: self.height,
            state: next,
            generation: self.generation + 1,
            alive_cells,
        };
    }
}

/// A well-formed board has ended exactly when all its cells are dead.
pub proof fn lemma_ended_iff_all_dead(board: BoardView)
    requires
        board.wf(),
    ensures
        board.run_state() == RunState::Ended <==> all_dead(board.grid),
{
    let g = board.grid;
    lemma_count_zero(g);
    if board.alive_cells == 0 {
        assert forall|r: int, c: int| 0 <= r < g.len() && 0 <= c < g[r].len() implies #[trigger] g[r][c]
            == 0 by {
            assert(valid_cell(g[r][c]));
            assert(g[r][c] != 1);
        }
    }
    if all_dead(g) {
        assert forall|r: int, c: int| 0 <= r < g.len() && 0 <= c < g[r].len() implies #[trigger] g[r][c]
            != 1 by {
            assert(g[r][c] == 0);
        }
    }
}

/// A step keeps a board well-formed.
pub proof fn lemma_step_preserves_wf(board: BoardView)
    requires
        board.wf(),
    ensures
        board.step().wf(),
{
    lemma_next_grid_shape(board.grid, board.width as int, board.height as int);
    lemma_next_grid_valid(board.grid);
}

/// Each step counts one generation: after `n` steps the generation is `n`
/// more than before, whatever the grid holds.
pub proof fn lemma_generation_after_steps(board: BoardView, n: nat)
    ensures
        board.step().generation == board.generation + 1,
        board.steps(n).generation == board.generation + n,
        board.steps(n).width == board.width,
        board.steps(n).height == board.height,
        board.wf() ==> board.steps(n).wf(),
    decreases n,
{
    if n > 0 {
        lemma_generation_after_steps(board, (n - 1) as nat);
        if board.wf() {
            lemma_step_preserves_wf(board.steps((n - 1) as nat));
        }
    }
}

} // verus!
