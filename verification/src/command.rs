//! Command-line surface, as plain data.
//!
//! The runner derives its real argument parser from these shapes and
//! converts into them; the library only carries the values.

use vstd::prelude::*;

verus! {

/// Arguments of the add command.
#[derive(Debug, Clone)]
pub struct AddArgs {
    pub name: Option<String>,
}

/// Arguments of the sub command.
#[derive(Debug, Clone)]
pub struct SubArgs {
    pub name: Option<String>,
}

/// The selected subcommand.
#[derive(Debug, Clone)]
pub enum Commands {
    Add(AddArgs),
    Sub(SubArgs),
}

/// The parsed command line.
#[derive(Debug, Clone)]
pub struct Cli {
    pub command: Commands,
}

} // verus!
