use vstd::prelude::*;

verus! {

/// The failures the pager engine can report.
#[derive(Debug, Clone, Copy, PartialEq, Eq, Structural)]
pub enum Error {
    /// The requested window of lines lies outside the store.
    GetLines,
    /// The search matcher could not be built from the term.
    SearchTerm,
}

} // verus!
