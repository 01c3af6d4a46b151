use vstd::prelude::*;

verus! {

/// The parsed command line.
pub struct Cli {
    pub command: Commands,
}

/// What the command line asks for.
pub enum Commands {
    /// Make a new project in a directory of that name.
    New { name: String },
    /// Make a new project in the current directory.
    Init,
    /// Generate `amount` cases into the package `name`.
    Generate { name: String, amount: u32, time_limit: u128 },
    /// Grade the current program against the package `name`.
    Test { name: String },
    ResetCache,
    Run,
}

} // verus!
