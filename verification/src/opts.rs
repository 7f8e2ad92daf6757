//! The options of a merge.

use vstd::prelude::*;

verus! {

/// What the operator asked for.
#[derive(Debug, Clone, Copy, PartialEq, Eq, Structural)]
pub struct Opts {
    /// Leave every `eprint!` and `eprintln!` statement out of the merged file.
    pub remove_error_output: bool,
    /// Log what the merge does.
    pub debug: bool,
}

} // verus!
