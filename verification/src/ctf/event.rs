//! The events of the trace, by kind.

use crate::err::{Error, Res};
use crate::time::SinceStart;
use vstd::prelude::*;

verus! {

/// Code of the trace-info event.
pub const INFO_CODE: u32 = 0;

/// Code of the locations event.
pub const LOCS_CODE: u32 = 1;

/// Code of the allocation event.
pub const ALLOC_CODE: u32 = 2;

/// Code of the promotion event.
pub const PROMOTION_CODE: u32 = 3;

/// Code of the collection event.
pub const COLLECTION_CODE: u32 = 4;

/// First reduced code of the compact allocation events.
pub const SMALL_ALLOC_MIN: u32 = 1;

/// Last reduced code of the compact allocation events.
pub const SMALL_ALLOC_MAX: u32 = 16;

/// Offset of the compact allocation codes over their reduced form.
pub const SMALL_ALLOC_OFFSET: u32 = 100;

/// The kind of one event.
#[derive(Debug, Clone, Copy, PartialEq, Eq, Structural)]
pub enum Kind {
    /// Trace information.
    Info,
    /// A table of source locations.
    Locs,
    /// An allocation.
    Alloc,
    /// A promotion.
    Promotion,
    /// A collection.
    Collection,
    /// A compact allocation; stores a value between one and sixteen.
    SmallAlloc(u32),
}

impl Kind {
    /// A compact allocation stores a reduced code between one and
    /// sixteen.
    pub open spec fn wf(&self) -> bool {
        match *self {
            Kind::SmallAlloc(n) => SMALL_ALLOC_MIN <= n <= SMALL_ALLOC_MAX,
            _ => true,
        }
    }

    /// Checks the compact allocation invariant; the caller must have
    /// established it.
    pub fn small_alloc_invariant(code: u32)
        requires
            SMALL_ALLOC_MIN <= code <= SMALL_ALLOC_MAX,
    {
    }

    /// True of the trace-information kind.
    pub fn is_info(self) -> (r: bool)
        ensures
            r == (self is Info),
    {
        match self {
            Kind::Info => true,
            _ => false,
        }
    }

    /// What decoding an event code yields.
    pub open spec fn spec_from_code(code: u32) -> Result<Kind, ()> {
        if code == INFO_CODE {
            Ok(Kind::Info)
        } else if code == LOCS_CODE {
            Ok(Kind::Locs)
        } else if code == ALLOC_CODE {
            Ok(Kind::Alloc)
        } else if code == PROMOTION_CODE {
            Ok(Kind::Promotion)
        } else if code == COLLECTION_CODE {
            Ok(Kind::Collection)
        } else if SMALL_ALLOC_MIN + SMALL_ALLOC_OFFSET <= code <= SMALL_ALLOC_MAX
            + SMALL_ALLOC_OFFSET {
            Ok(Kind::SmallAlloc((code - SMALL_ALLOC_OFFSET) as u32))
        } else {
            Err(())
        }
    }

    /// Decodes an event code; an unknown code is refused.
    pub fn from_code(code: u32) -> (r: Res<Kind>)
        ensures
            match r {
                Ok(kind) => Self::spec_from_code(code) == Ok::<Kind, ()>(kind) && kind.wf(),
                Err(e) => Self::spec_from_code(code) is Err && e == Error::BadEventCode(code),
            },
    {
        if code == INFO_CODE {
            Ok(Kind::Info)
        } else if code == LOCS_CODE {
            Ok(Kind::Locs)
        } else if code == ALLOC_CODE {
            Ok(Kind::Alloc)
        } else if code == PROMOTION_CODE {
            Ok(Kind::Promotion)
        } else if code == COLLECTION_CODE {
            Ok(Kind::Collection)
        } else if SMALL_ALLOC_MIN + SMALL_ALLOC_OFFSET <= code && code <= SMALL_ALLOC_MAX
            + SMALL_ALLOC_OFFSET {
            let reduced = code - SMALL_ALLOC_OFFSET;
            Self::small_alloc_invariant(reduced);
            Ok(Kind::SmallAlloc(reduced))
        } else {
            Err(Error::BadEventCode(code))
        }
    }

    /// The code of a kind; decoding it yields the kind again.
    pub fn code(self) -> (r: u32)
        requires
            self.wf(),
        ensures
            Self::spec_from_code(r) == Ok::<Kind, ()>(self),
    {
        match self {
            Kind::Info => INFO_CODE,
            Kind::Locs => LOCS_CODE,
            Kind::Alloc => ALLOC_CODE,
            Kind::Promotion => PROMOTION_CODE,
            Kind::Collection => COLLECTION_CODE,
            Kind::SmallAlloc(n) => {
                Self::small_alloc_invariant(n);
                n + SMALL_ALLOC_OFFSET
            },
        }
    }
}

/// An allocation event.
#[derive(Debug, Clone)]
pub struct Alloc {
    /// Identifier of the object.
    pub id: u64,
    /// Its size.
    pub len: usize,
    /// When it was allocated.
    pub alloc_time: SinceStart,
    /// How many samples it covers.
    pub nsamples: usize,
    /// True for a major-heap allocation.
    pub is_major: bool,
    /// The sampled backtrace.
    pub backtrace: Vec<usize>,
    /// Full length of the backtrace.
    pub backtrace_len: usize,
    /// How many leading frames the previous backtrace shares.
    pub common_pref_len: usize,
}

impl Alloc {
    /// The event code of allocations.
    pub fn event_id() -> (r: u32)
        ensures
            r == ALLOC_CODE,
    {
        ALLOC_CODE
    }

    /// The event name of allocations.
    pub fn name() -> (r: &'static str)
        ensures
            r@ == "alloc"@,
    {
        "alloc"
    }
}

/// A promotion event.
#[derive(Debug, Clone, Copy, PartialEq, Eq, Structural)]
pub struct Promotion {
    /// Distance to the promoted object's identifier.
    pub id_delta: u64,
}

impl Promotion {
    /// The event code of promotions.
    pub fn event_id() -> (r: u32)
        ensures
            r == PROMOTION_CODE,
    {
        PROMOTION_CODE
    }

    /// The event name of promotions.
    pub fn name() -> (r: &'static str)
        ensures
            r@ == "promote"@,
    {
        "promote"
    }
}

/// A collection event.
#[derive(Debug, Clone, Copy, PartialEq, Eq, Structural)]
pub struct Collection {
    /// Distance to the collected object's identifier.
    pub id_delta: u64,
}

impl Collection {
    /// The event code of collections.
    pub fn event_id() -> (r: u32)
        ensures
            r == COLLECTION_CODE,
    {
        COLLECTION_CODE
    }

    /// The event name of collections.
    pub fn name() -> (r: &'static str)
        ensures
            r@ == "collect"@,
    {
        "collect"
    }
}

} // verus!
