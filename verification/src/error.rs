//! The failures that the library reports.

use vstd::prelude::*;

verus! {

/// Why an operation of the library was refused.
#[derive(Debug, Clone, Copy, PartialEq, Eq)]
pub enum GameError {
    /// A board was asked for with a width or a height of zero.
    ConfigurationError,
    /// The text to load holds no cell at all.
    EmptyInput,
    /// A character of the text is neither `0` nor `1`. Lines and columns
    /// are counted from one.
    MalformedInput { line: usize, column: usize, found: char },
    /// A line of the text is not as long as the first one. Lines are counted
    /// from one.
    InconsistentRowWidth { line: usize, expected: usize, actual: usize },
    /// A cell of a grid holds a value other than `0` or `1`.
    InvalidCellValue,
    /// There are more cells to count than the 32-bit cell counter can hold.
    TooManyCells,
}

} // verus!
