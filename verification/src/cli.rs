//! The command line: a debug switch and one of two commands.
use vstd::prelude::*;

verus! {

#[derive(Debug)]
pub struct Cli {
    /// Turns on debug logging.
    pub debug: bool,
    pub command: Commands,
}

#[derive(Debug, Clone, Copy, PartialEq, Eq)]
pub enum Commands {
    /// Downloads the license catalogue and records its templates.
    Update,
    /// Chooses a license and writes it, rendered, to `LICENSE`.
    Select,
}

} // verus!
