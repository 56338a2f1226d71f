//! The program's commands.

use vstd::prelude::*;

verus! {

/// A command of the program.
#[derive(Debug, Clone, PartialEq, Eq)]
pub enum Commands {
    /// Import a deck from a file.
    Import { path: String },
    /// Review the due cards of the decks whose names start with `deck_name`.
    Review { deck_name: String },
    /// Show the state of a deck.
    State { deck_name: String },
}

/// The program's arguments.
#[derive(Debug, Clone, PartialEq, Eq)]
pub struct Args {
    pub command: Commands,
}

} // verus!
