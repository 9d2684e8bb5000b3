//! Commandline argument values.
//!
//! Parsing the command line is the surrounding application's business;
//! these are the plain values it hands over.

use vstd::prelude::*;

verus! {

/// The options of a conversion run.
#[derive(Clone, Copy, Debug, PartialEq, Eq, Structural)]
pub struct CliArguments {
    /// Verbosity level (each `-v` adds one).
    pub verbose: u8,
    /// Write a JSON snapshot of the normalized library to the target
    /// directory instead of the full target-tree projection.
    pub json_export: bool,
}

} // verus!
