//! Charts: display settings, the per-chart client state, and the time
//! aggregation engine.

pub mod time;

use crate::uid::ChartUid;
use vstd::prelude::*;

verus! {

/// Display resolution configuration.
#[derive(Debug, Clone, Copy, PartialEq, Eq, Structural)]
pub struct Resolution {
    /// Width of the display area, in pixels.
    pub width: u32,
}

/// The kind of value a time chart plots.
#[derive(Debug, Clone, Copy, PartialEq, Eq, Structural)]
pub enum Value {
    /// Total size of the live objects.
    TotalSize,
    /// Highest lifetime among the live objects.
    HighestLifetime,
}

impl Value {
    /// Constructor for the total-size value.
    pub fn total_size() -> (r: Value)
        ensures
            r == Value::TotalSize,
    {
        Value::TotalSize
    }

    /// Constructor for the highest-lifetime value.
    pub fn highest_lifetime() -> (r: Value)
        ensures
            r == Value::HighestLifetime,
    {
        Value::HighestLifetime
    }

    /// A short description of the value.
    pub fn desc(&self) -> (r: &'static str)
        ensures
            *self is TotalSize ==> r@ == "total size"@,
            *self is HighestLifetime ==> r@ == "highest lifetime"@,
    {
        match self {
            Value::TotalSize => "total size",
            Value::HighestLifetime => "highest lifetime",
        }
    }
}

/// The display state of one time chart; the drawing itself belongs to the
/// rendering collaborator.
#[derive(Debug)]
pub struct TimeChart {
    /// Identifier of the chart's placeholder in the display tree.
    pub html_id: String,
    /// Identity of the chart.
    pub uid: ChartUid,
    /// The kind of value plotted.
    pub value: Value,
    /// True if the chart is visible.
    pub visible: bool,
}

impl TimeChart {
    /// Constructor.
    pub fn new(html_id: String, uid: ChartUid, value: Value) -> (r: TimeChart)
        ensures
            r.html_id@ == html_id@,
            r.uid == uid,
            r.value == value,
            r.visible == false,
    {
        TimeChart { html_id, uid, value, visible: false }
    }

    /// The identity of this chart.
    pub fn uid(&self) -> (r: &ChartUid)
        ensures
            r == &self.uid,
    {
        &self.uid
    }

    /// Default time chart constructor: a total-size chart.
    pub fn default(html_id: String, uid: ChartUid) -> (r: TimeChart)
        ensures
            r.html_id@ == html_id@,
            r.uid == uid,
            r.value == Value::TotalSize,
            r.visible == false,
    {
        Self::total_size(html_id, uid)
    }

    /// Total size over time chart constructor.
    pub fn total_size(html_id: String, uid: ChartUid) -> (r: TimeChart)
        ensures
            r.html_id@ == html_id@,
            r.uid == uid,
            r.value == Value::TotalSize,
            r.visible == false,
    {
        Self::new(html_id, uid, Value::total_size())
    }

    /// Highest lifetime over time chart constructor.
    pub fn highest_lifetime(html_id: String, uid: ChartUid) -> (r: TimeChart)
        ensures
            r.html_id@ == html_id@,
            r.uid == uid,
            r.value == Value::HighestLifetime,
            r.visible == false,
    {
        Self::new(html_id, uid, Value::highest_lifetime())
    }

    /// Collapses the chart; the result says whether anything changed, and is
    /// false when the chart was already collapsed.
    pub fn collapse(&mut self) -> (r: bool)
        ensures
            final(self).visible == false,
            *final(self) == (TimeChart { visible: false, ..*old(self) }),
            r == old(self).visible,
    {
        if self.visible {
            self.visible = false;
            true
        } else {
            false
        }
    }

    /// Expands the chart; the result says whether anything changed, and is
    /// false when the chart was already expanded.
    pub fn expand(&mut self) -> (r: bool)
        ensures
            final(self).visible == true,
            *final(self) == (TimeChart { visible: true, ..*old(self) }),
            r == !old(self).visible,
    {
        if !self.visible {
            self.visible = true;
            true
        } else {
            false
        }
    }
}

} // verus!
