//! What the user asks for: the size of a random board, or a file to read
//! the board from.

use vstd::prelude::*;
use crate::error::GameError;

verus! {

/// The settings of a run.
#[derive(Debug)]
pub struct Cli {
    /// The width of a random board.
    pub width: u32,
    /// The height of a random board.
    pub height: u32,
    /// The file to read the board from; without one the board is random.
    pub file: Option<String>,
}

impl Cli {
    /// The width of a board when none is given.
    pub const DEFAULT_WIDTH: u32 = 20;

    /// The height of a board when none is given.
    pub const DEFAULT_HEIGHT: u32 = 20;

    /// The settings can be run with: a file is named, which then decides
    /// the size, or the width and the height are both positive.
    pub open spec fn valid(&self) -> bool {
        self.file is Some || (self.width > 0 && self.height > 0)
    }

    /// Checks the settings before a board is made from them.
    pub fn validate(&self) -> (result: Result<(), GameError>)
        ensures
            self.valid() ==> result is Ok,
            !self.valid() ==> result == Err::<(), GameError>(GameError::ConfigurationError),
    {
        if self.file.is_some() || (self.width > 0 && self.height > 0) {
            Ok(())
        } else {
            Err(GameError::ConfigurationError)
        }
    }
}

} // verus!
