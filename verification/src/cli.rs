//! The command line: an optional shell name, and whether to run in place.

use vstd::prelude::*;

verus! {

/// The parsed command line.
#[derive(Debug)]
pub struct Args {
    /// Run the shell in this terminal instead of toggling one.
    pub in_place: bool,
    /// The shell to toggle; without one, a menu offers the shells.
    pub shell: Option<String>,
}

} // verus!
