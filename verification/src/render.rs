//! The text of a frame: one painted block for each cell, one line for each
//! row.

use vstd::prelude::*;
use vstd::string::StringExecFns;
use colored::Colorize;
use crate::error::GameError;
use crate::grid::{all_valid, cells, valid_cell};

verus! {

/// The two full blocks that show one cell.
pub open spec fn cell_glyph() -> Seq<char> {
    seq!['\u{2588}', '\u{2588}']
}

/// What one cell adds to a frame: its block, and a line break once the
/// cell's number in the row, counted from one, has reached the width.
pub open spec fn cell_text(iteration: int, width: int, block: Seq<char>) -> Seq<char> {
    if iteration < width {
        block
    } else {
        block.push('\n')
    }
}

/// The block of a cell: `alive` for `1`, `dead` for any other value.
pub open spec fn block_of(cell: u32, dead: Seq<char>, alive: Seq<char>) -> Seq<char> {
    if cell == 1 {
        alive
    } else {
        dead
    }
}

/// The text of a row: that of its cells, from the first to the last.
pub open spec fn row_text(row: Seq<u32>, width: int, dead: Seq<char>, alive: Seq<char>) -> Seq<char>
    decreases row.len(),
{
    if row.len() == 0 {
        Seq::empty()
    } else {
        row_text(row.drop_last(), width, dead, alive) + cell_text(
            row.len() as int,
            width,
            block_of(row.last(), dead, alive),
        )
    }
}

/// The text of a frame: that of its rows, from the first to the last.
pub open spec fn frame_text(g: Seq<Seq<u32>>, width: int, dead: Seq<char>, alive: Seq<char>) -> Seq<
    char,
>
    decreases g.len(),
{
    if g.len() == 0 {
        Seq::empty()
    } else {
        frame_text(g.drop_last(), width, dead, alive) + row_text(g.last(), width, dead, alive)
    }
}

/// The decimal digit `d` as a character.
pub open spec fn digit(d: int) -> char {
    seq!['0', '1', '2', '3', '4', '5', '6', '7', '8', '9'][d]
}

/// A byte written in decimal, without leading zeros.
pub open spec fn decimal(n: u8) -> Seq<char> {
    let n = n as int;
    if n < 10 {
        seq![digit(n)]
    } else if n < 100 {
        seq![digit(n / 10), digit(n % 10)]
    } else {
        seq![digit(n / 100), digit(n / 10 % 10), digit(n % 10)]
    }
}

/// The code that asks a terminal for a 24-bit foreground colour.
pub open spec fn true_colour_code(red: u8, green: u8, blue: u8) -> Seq<char> {
    seq!['3', '8', ';', '2', ';'] + decimal(red) + seq![';'] + decimal(green) + seq![';'] + decimal(
        blue,
    )
}

/// The foreground code of the basic colour, one of sixteen, that `colored`
/// holds to be nearest to a 24-bit colour. It is what `colored` falls back
/// on for a terminal that does not announce 24-bit colour.
pub uninterp spec fn nearest_basic_code(red: u8, green: u8, blue: u8) -> Seq<char>;

/// The escape sequence that sets the style named by `code`.
pub open spec fn style_sequence(code: Seq<char>) -> Seq<char> {
    seq!['\u{1b}', '['] + code + seq!['m']
}

/// The escape sequence that resets every style.
pub open spec fn reset_sequence() -> Seq<char> {
    seq!['\u{1b}', '[', '0', 'm']
}

/// `block` is `text` as a terminal shows it in a colour of which `direct`
/// and `fallback` are the two codes: the text as it is where colouring is
/// off, else the text between the sequence that sets one of the two and the
/// one that resets it. (The text with the reset alone is what comes out
/// where colouring is switched off in the middle of the painting.)
pub open spec fn painted_as(
    block: Seq<char>,
    text: Seq<char>,
    direct: Seq<char>,
    fallback: Seq<char>,
) -> bool {
    ||| block == text
    ||| block == style_sequence(direct) + text + reset_sequence()
    ||| block == style_sequence(fallback) + text + reset_sequence()
    ||| block == text + reset_sequence()
}

/// `block` is the two blocks of a cell, painted in the colour `(red,
/// green, blue)`.
pub open spec fn painted_cell(block: Seq<char>, red: u8, green: u8, blue: u8) -> bool {
    painted_as(
        block,
        cell_glyph(),
        true_colour_code(red, green, blue),
        nearest_basic_code(red, green, blue),
    )
}

/// The text holds no escape character.
pub open spec fn plain_text(text: Seq<char>) -> bool {
    forall|i: int| 0 <= i < text.len() ==> text[i] != '\u{1b}'
}

/// Paints a text in a 24-bit foreground colour, by `colored`'s
/// `Colorize::truecolor` and the `Display` of the `ColoredString` that it
/// gives.
///
/// Whether `colored` colours at all, and with which code, depends on the
/// terminal and the environment. Where it does not, the text comes back as
/// it is. Where it does, the text stands between the escape sequence that
/// sets the colour and the one that resets it, and the colour's code is the
/// 24-bit one or that of the nearest basic colour. A text without an escape
/// character holds no reset sequence, so `colored` leaves its inside alone.
#[verifier::external_body]
fn paint(text: &str, red: u8, green: u8, blue: u8) -> (block: String)
    requires
        plain_text(text@),
    ensures
        painted_as(
            block@,
            text@,
            true_colour_code(red, green, blue),
            nearest_basic_code(red, green, blue),
        ),
{
    format!("{}", text.truecolor(red, green, blue))
}

/// Adds one cell to a frame: its block, and a line break if the row ends
/// with it, that is once `iteration`, the cell's number in its row counted
/// from one, has reached `width`. Then counts the cell; the counter stops at
/// its largest value.
pub fn print_cell(frame: &mut String, iteration: &mut u32, width: u32, block: &str)
    ensures
        final(frame)@ == old(frame)@ + cell_text(*old(iteration) as int, width as int, block@),
        *final(iteration) == if *old(iteration) < u32::MAX {
            *old(iteration) + 1
        } else {
            u32::MAX as int
        },
{
    frame.append(block);
    if *iteration >= width {
        proof {
            reveal_strlit("\n");
            assert("\n"@ =~= seq!['\n']);
            assert(old(frame)@ + block@ + seq!['\n'] =~= old(frame)@ + block@.push('\n'));
        }
        frame.append("\n");
    }
    if *iteration < u32::MAX {
        *iteration += 1;
    }
}

/// What the cell counter of a row holds before the cell at `column`.
spec fn counter_at(column: int) -> int {
    if column + 1 < u32::MAX {
        column + 1
    } else {
        u32::MAX as int
    }
}

/// The text of a frame in which `dead` shows a dead cell and `alive` a live
/// one.
///
/// Each row starts a count of its cells at one, and a line break follows
/// every cell whose number has reached `width`. A cell that holds neither
/// `0` nor `1` is reported and no text is made.
pub fn render_with(board: &[Vec<u32>], width: u32, dead: &str, alive: &str) -> (result: Result<
    String,
    GameError,
>)
    ensures
        !all_valid(cells(board@)) ==> result == Err::<String, GameError>(GameError::InvalidCellValue),
        all_valid(cells(board@)) ==> result is Ok && result->Ok_0@ == frame_text(
            cells(board@),
            width as int,
            dead@,
            alive@,
        ),
{
    let ghost g = cells(board@);
    let mut frame = String::new();
    let mut r: usize = 0;
    while r < board.len()
        invariant
            g == cells(board@),
            r <= board.len(),
            frame@ == frame_text(g.take(r as int), width as int, dead@, alive@),
            forall|i: int, j: int| 0 <= i < r && 0 <= j < g[i].len() ==> valid_cell(#[trigger] g[i][j]),
        decreases board.len() - r,
    {
        let row = &board[r];
        let ghost row_cells = g[r as int];
        let ghost before = frame@;
        let mut iteration: u32 = 1;
        let mut c: usize = 0;
        while c < row.len()
            invariant
                g == cells(board@),
                r < board.len(),
                row@ == row_cells,
                row_cells == g[r as int],
                c <= row.len(),
                iteration == counter_at(c as int),
                frame@ == before + row_text(row_cells.take(c as int), width as int, dead@, alive@),
                forall|j: int| 0 <= j < c ==> valid_cell(#[trigger] row_cells[j]),
            decreases row.len() - c,
        {
            let cell = row[c];
            proof {
                let shown = row_cells.take(c + 1);
                assert(shown.drop_last() =~= row_cells.take(c as int));
                assert(shown.last() == cell);
                assert(cell_text(iteration as int, width as int, block_of(cell, dead@, alive@))
                    == cell_text(c + 1, width as int, block_of(cell, dead@, alive@)));
            }
            if cell == 0 {
                print_cell(&mut frame, &mut iteration, width, dead);
            } else if cell == 1 {
                print_cell(&mut frame, &mut iteration, width, alive);
            } else {
                assert(!valid_cell(g[r as int][c as int]));
                return Err(GameError::InvalidCellValue);
            }
            assert(frame@ =~= before + row_text(row_cells.take(c + 1), width as int, dead@, alive@));
            c += 1;
        }
        proof {
            assert(row_cells.take(c as int) =~= row_cells);
            assert(g.take(r + 1).drop_last() =~= g.take(r as int));
            assert(g.take(r + 1).last() == row_cells);
        }
        r += 1;
    }
    proof {
        assert(g.take(r as int) =~= g);
    }
    Ok(frame)
}

/// The text of a frame: two blocks for each cell, painted black for a dead
/// cell and white for a live one, and a line for each row.
///
/// The frame is laid out as `render_with` lays it out, with the two blocks
/// painted black, `(0, 0, 0)`, for the dead cells and painted white, `(255,
/// 255, 255)`, for the live ones. What a painted block looks like is left
/// to the terminal's colour support. A cell that holds neither `0` nor `1`
/// is reported.
pub fn render(board: &Vec<Vec<u32>>, width: u32) -> (result: Result<String, GameError>)
    ensures
        !all_valid(cells(board@)) ==> result == Err::<String, GameError>(GameError::InvalidCellValue),
        all_valid(cells(board@)) ==> result is Ok && exists|dead: Seq<char>, alive: Seq<char>|
            painted_cell(dead, 0, 0, 0) && painted_cell(alive, 255, 255, 255) && result->Ok_0@
                == #[trigger] frame_text(cells(board@), width as int, dead, alive),
{
    let glyph = "\u{2588}\u{2588}";
    proof {
        reveal_strlit("\u{2588}\u{2588}");
        assert(glyph@ =~= cell_glyph());
    }
    let dead = paint(glyph, 0, 0, 0);
    let alive = paint(glyph, 255, 255, 255);
    render_with(board.as_slice(), width, dead.as_str(), alive.as_str())
}

} // verus!
