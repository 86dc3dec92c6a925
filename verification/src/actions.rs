//! Script sources.
use vstd::prelude::*;

verus! {

/// A script as it was found: its name and its source text.
#[derive(Debug, Default, Clone, PartialEq, Eq)]
pub struct Action {
    pub code: String,
    pub name: String,
}

} // verus!
