//! Automatic filter generation strategies.

use crate::filter::Filter;
use vstd::prelude::*;

verus! {

/// The strategy that generates no filter at all.
#[derive(Debug, Clone, Copy, PartialEq, Eq, Structural)]
pub struct Inactive;

impl Inactive {
    /// The key naming this strategy in a generation argument.
    pub fn key() -> (r: &'static str)
        ensures
            r@ == "none"@,
    {
        "none"
    }

    /// Generates the filters: none.
    pub fn work() -> (r: Vec<Filter>)
        ensures
            r@.len() == 0,
    {
        Vec::new()
    }
}

} // verus!
