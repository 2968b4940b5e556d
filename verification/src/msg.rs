//! Messages that drive the filter registry and the charts.

use crate::filter::{Filter, FilterSpec, SubFilter};
use crate::uid::{ChartUid, FilterUid, SubFilterUid};
use vstd::prelude::*;

verus! {

/// An operation over one filter's sub-filters.
#[derive(Debug)]
pub enum FilterMsg {
    /// Adds a fresh sub-filter.
    AddNew,
    /// Updates the sub-filter carrying the same identifier.
    Sub(SubFilter),
    /// Removes a sub-filter.
    RmSub(SubFilterUid),
}

/// An operation over a filter's display identity.
#[derive(Debug)]
pub enum FilterSpecMsg {
    /// Changes the display name.
    ChangeName(String),
    /// Changes the display color, given as an `#rrggbb` string.
    ChangeColor(String),
}

/// An operation over the filter registry.
#[derive(Debug)]
pub enum FiltersMsg {
    /// Saves the current filters: clears every transient edit mark.
    Save,
    /// Removes a filter.
    Rm(FilterUid),
    /// An operation over a filter's display identity; no identifier means
    /// the catch-all entry.
    FilterSpec {
        /// The filter, or the catch-all when absent.
        uid: Option<FilterUid>,
        /// The operation.
        msg: FilterSpecMsg,
    },
    /// An operation over a filter's sub-filters.
    Filter {
        /// The filter.
        uid: FilterUid,
        /// The operation.
        msg: FilterMsg,
    },
}

/// An operation sent by the server to the registry.
#[derive(Debug)]
pub enum FiltersServerMsg {
    /// Adds a filter.
    Add(Filter),
    /// Replaces the whole registry content.
    Revert {
        /// The new catch-all identity.
        catch_all: FilterSpec,
        /// The new filters, in order.
        filters: Vec<Filter>,
    },
    /// Updates the display identities of known filters.
    UpdateSpecs {
        /// The new catch-all identity, if any.
        catch_all: Option<FilterSpec>,
        /// The new identities, keyed by filter.
        specs: Vec<(FilterUid, FilterSpec)>,
    },
}

/// An action over the collection of charts.
#[derive(Debug, Clone, Copy, PartialEq, Eq, Structural)]
pub enum ChartsMsg {
    /// Refresh all charts.
    RefreshAll,
    /// Reload the whole history for all charts.
    ReloadData,
    /// Close a chart.
    Close {
        /// The chart to close.
        uid: ChartUid,
    },
    /// Move a chart up or down.
    Move {
        /// The chart to move.
        uid: ChartUid,
        /// Whether the chart should move up.
        up: bool,
    },
    /// Change the visibility of a chart.
    Visibility {
        /// The chart to change.
        uid: ChartUid,
        /// True to show the chart.
        show: bool,
    },
}

/// A raw message from the server, before parsing.
#[derive(Debug)]
pub enum RawMsg {
    /// Binary payload, or a transport error.
    Binary(Result<Vec<u8>, String>),
    /// Text payload, or a transport error.
    Text(Result<String, String>),
}

} // verus!
