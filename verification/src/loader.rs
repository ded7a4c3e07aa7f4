//! Reading a board from text: one line per row, one character per cell,
//! `0` for a dead cell and `1` for a live one.

use vstd::prelude::*;
use crate::board::{first_ragged, grid_fault, lemma_first_ragged, ragged_at, Board, BoardView};
use crate::error::GameError;
use crate::grid::{cells, valid_cell};

verus! {

/// The lines of a text as sequences of characters.
pub open spec fn text_of(lines: Seq<String>) -> Seq<Seq<char>> {
    Seq::new(lines.len(), |i: int| lines[i]@)
}

/// The cell that a character stands for: `1` is alive, `0` is dead.
pub open spec fn cell_of(c: char) -> u32 {
    if c == '1' {
        1
    } else {
        0
    }
}

/// The cells that the characters of a line stand for.
pub open spec fn parse_line(line: Seq<char>) -> Seq<u32> {
    Seq::new(line.len(), |j: int| cell_of(line[j]))
}

/// The grid that the lines of a text stand for.
pub open spec fn parse_text(text: Seq<Seq<char>>) -> Seq<Seq<u32>> {
    Seq::new(text.len(), |i: int| parse_line(text[i]))
}

/// The character `j` of `line` is neither `0` nor `1`.
pub open spec fn malformed_at(line: Seq<char>, j: int) -> bool {
    0 <= j < line.len() && line[j] != '0' && line[j] != '1'
}

/// The character `j` of `line` is the first that is neither `0` nor `1`.
pub open spec fn first_malformed(line: Seq<char>, j: int) -> bool {
    malformed_at(line, j) && forall|k: int| 0 <= k < j ==> !malformed_at(line, k)
}

/// Line `i` of the text holds a character that is neither `0` nor `1`.
pub open spec fn malformed_line(text: Seq<Seq<char>>, i: int) -> bool {
    0 <= i < text.len() && exists|j: int| malformed_at(text[i], j)
}

/// Line `i` is the first line of the text that holds a character that is
/// neither `0` nor `1`.
pub open spec fn first_malformed_line(text: Seq<Seq<char>>, i: int) -> bool {
    malformed_line(text, i) && forall|k: int| 0 <= k < i ==> !malformed_line(text, k)
}

/// Why a text is no board, if it is none. Lines and columns are counted
/// from one.
///
/// A text without a line is empty. Failing that, a character that is
/// neither `0` nor `1`, anywhere in the text, is what is wrong with it: the
/// first such character of the first line that holds one. Only a text of
/// `0` and `1` alone is looked at further: a line (the first such) is not
/// as long as the first line, or the lines are all empty, or there are too
/// many cells.
pub open spec fn text_fault(text: Seq<Seq<char>>) -> Option<GameError> {
    if text.len() == 0 {
        Some(GameError::EmptyInput)
    } else if exists|i: int| malformed_line(text, i) {
        let i = choose|i: int| first_malformed_line(text, i);
        let j = choose|j: int| first_malformed(text[i], j);
        Some(
            GameError::MalformedInput {
                line: (i + 1) as usize,
                column: (j + 1) as usize,
                found: text[i][j],
            },
        )
    } else if exists|i: int| ragged_at(text, i) {
        let i = choose|i: int| first_ragged(text, i);
        Some(
            GameError::InconsistentRowWidth {
                line: (i + 1) as usize,
                expected: text[0].len() as usize,
                actual: text[i].len() as usize,
            },
        )
    } else if text[0].len() == 0 {
        Some(GameError::EmptyInput)
    } else if text.len() * text[0].len() > u32::MAX {
        Some(GameError::TooManyCells)
    } else {
        None
    }
}

/// A text is refused as malformed exactly when one of its lines holds a
/// character that is neither `0` nor `1`, whatever else is wrong with it.
pub proof fn lemma_malformed_input(text: Seq<Seq<char>>)
    ensures
        text_fault(text) matches Some(GameError::MalformedInput { .. }) <==> exists|i: int|
            malformed_line(text, i),
{
}

/// A text of `0` and `1` alone is no board for the reason for which its
/// cells are no grid, and for no other.
proof fn lemma_fault_of_cells(text: Seq<Seq<char>>)
    requires
        text.len() > 0,
        forall|i: int| !malformed_line(text, i),
    ensures
        text_fault(text) == grid_fault(parse_text(text)),
{
    let g = parse_text(text);
    assert forall|i: int| ragged_at(text, i) == ragged_at(g, i) by {}
    assert forall|i: int| first_ragged(text, i) == first_ragged(g, i) by {
        assert forall|k: int| ragged_at(text, k) == ragged_at(g, k) by {}
    }
    assert forall|r: int, c: int| 0 <= r < g.len() && 0 <= c < g[r].len() implies valid_cell(
        #[trigger] g[r][c],
    ) by {}
    if exists|i: int| ragged_at(text, i) {
        let i = choose|i: int| ragged_at(text, i);
        assert(ragged_at(g, i));
        lemma_first_ragged(text, i);
        lemma_first_ragged(g, i);
        let first = choose|k: int| first_ragged(text, k);
        assert(first_ragged(g, first));
    } else {
        assert forall|i: int| !ragged_at(g, i) by {
            assert(!ragged_at(text, i));
        }
    }
}

/// Reads the cells of one line, or finds its first character that is
/// neither `0` nor `1`: the result is that character's index and the
/// character.
fn read_line(line: &str) -> (result: Result<Vec<u32>, (usize, char)>)
    ensures
        line@.len() <= usize::MAX,
        match result {
            Ok(row) => row@ == parse_line(line@) && forall|j: int| !malformed_at(line@, j),
            Err((j, found)) => first_malformed(line@, j as int) && found == line@[j as int],
        },
{
    let length = line.unicode_len();
    let mut row: Vec<u32> = Vec::with_capacity(length);
    for c in characters: line.chars()
        invariant
            characters.seq() == line@,
            length == line@.len(),
            row.len() == characters.index(),
            forall|k: int| 0 <= k < characters.index() ==> !malformed_at(line@, k),
            forall|k: int| 0 <= k < characters.index() ==> #[trigger] row[k] == cell_of(line@[k]),
    {
        if c == '0' {
            row.push(0);
        } else if c == '1' {
            row.push(1);
        } else {
            let j = row.len();
            assert(malformed_at(line@, j as int));
            return Err((j, c));
        }
    }
    assert(row@ =~= parse_line(line@));
    Ok(row)
}

/// Makes a board at its first generation from the lines of a text.
///
/// The width is the length of the first line, the height the number of
/// lines. A text without a line is refused. So is a character other than
/// `0` and `1`, wherever it stands: the first one in reading order is
/// reported, before anything is said of the lengths of the lines. In a
/// text of `0` and `1` alone, a line that is not as long as the first is
/// reported, and lines that are all empty are refused as a text without a
/// cell.
pub fn load_from_text(lines: &[String]) -> (result: Result<Board, GameError>)
    ensures
        match result {
            Ok(board) => text_fault(text_of(lines@)) is None && board@ == BoardView::fresh(
                parse_text(text_of(lines@)),
            ) && board@.wf(),
            Err(error) => text_fault(text_of(lines@)) == Some(error),
        },
{
    let ghost text = text_of(lines@);
    if lines.len() == 0 {
        return Err(GameError::EmptyInput);
    }
    let mut state: Vec<Vec<u32>> = Vec::new();
    let mut i: usize = 0;
    while i < lines.len()
        invariant
            text == text_of(lines@),
            lines.len() > 0,
            i <= lines.len(),
            state.len() == i,
            forall|k: int| 0 <= k < i ==> !malformed_line(text, k),
            forall|k: int| 0 <= k < i ==> (#[trigger] state[k])@ == parse_line(text[k]),
        decreases lines.len() - i,
    {
        let line = lines[i].as_str();
        assert(line@ == text[i as int]);
        match read_line(line) {
            Ok(row) => {
                state.push(row);
            },
            Err((j, found)) => {
                proof {
                    lemma_first_malformed(text, i as int, j as int);
                }
                return Err(GameError::MalformedInput { line: i + 1, column: j + 1, found });
            },
        }
        i += 1;
    }
    proof {
        assert(cells(state@) =~= parse_text(text));
        lemma_fault_of_cells(text);
    }
    Board::new(state)
}

/// The first character that is neither `0` nor `1` in the first line that
/// holds one is the one that the text's fault names.
proof fn lemma_first_malformed(text: Seq<Seq<char>>, i: int, j: int)
    requires
        0 <= i < text.len(),
        first_malformed(text[i], j),
        forall|k: int| 0 <= k < i ==> !malformed_line(text, k),
    ensures
        text_fault(text) == Some(
            GameError::MalformedInput {
                line: (i + 1) as usize,
                column: (j + 1) as usize,
                found: text[i][j],
            },
        ),
{
    assert(malformed_at(text[i], j));
    assert(first_malformed_line(text, i));
    let line = choose|k: int| first_malformed_line(text, k);
    assert(line == i) by {
        if line < i {
            assert(!malformed_line(text, line));
        }
        if i < line {
            assert(!malformed_line(text, i));
        }
    }
    let column = choose|k: int| first_malformed(text[i], k);
    assert(column == j) by {
        if column < j {
            assert(!malformed_at(text[i], column));
        }
        if j < column {
            assert(!malformed_at(text[i], j));
        }
    }
}

} // verus!
