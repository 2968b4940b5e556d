//! Identifiers for filters, sub-filters, charts and chart lines.

use vstd::prelude::*;

verus! {

/// Unique identifier of a filter.
#[derive(Debug, Clone, Copy, PartialEq, Eq, Structural)]
pub struct FilterUid {
    /// The raw index.
    pub index: u64,
}

/// Unique identifier of a sub-filter inside a filter.
#[derive(Debug, Clone, Copy, PartialEq, Eq, Structural)]
pub struct SubFilterUid {
    /// The raw index.
    pub index: u64,
}

/// Unique identifier of a chart.
#[derive(Debug, Clone, Copy, PartialEq, Eq, Structural)]
pub struct ChartUid {
    /// The raw index.
    pub index: u64,
}

/// Identity of one output series (a chart line).
///
/// Keys are stable for the engine's lifetime: the aggregate of all lines, the
/// implicit catch-all line for objects matched by no explicit filter, and one
/// line per user filter.
#[derive(Debug, Clone, Copy, PartialEq, Eq, Structural)]
pub enum LineUid {
    /// The aggregate of all lines.
    Everything,
    /// Objects matching no explicit filter.
    CatchAll,
    /// The line of a specific filter.
    Filter(FilterUid),
}

} // verus!
