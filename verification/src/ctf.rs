//! The binary event-trace model: spans, packet headers and event kinds.

pub mod event;
pub mod header;

use crate::err::{Error, Res};
use crate::time::SinceStart;
use vstd::prelude::*;

verus! {

/// A closed interval between two values.
#[derive(Debug, Clone, Copy, PartialEq, Eq, Structural)]
pub struct Span<T> {
    /// Lower end of the interval.
    pub begin: T,
    /// Upper end of the interval.
    pub end: T,
}

impl Span<u64> {
    /// Constructor; only an interval with ordered ends can be built.
    pub fn new(begin: u64, end: u64) -> (r: Res<Span<u64>>)
        ensures
            begin <= end ==> r == Res::<Span<u64>>::Ok(Span { begin, end }),
            begin > end ==> r == Res::<Span<u64>>::Err(Error::BadRange(begin, end)),
    {
        if begin > end {
            Err(Error::BadRange(begin, end))
        } else {
            Ok(Span { begin, end })
        }
    }

    /// Whether a value lies in the interval, both ends included.
    pub fn contains(&self, value: u64) -> (r: bool)
        ensures
            r == (self.begin <= value && value <= self.end),
    {
        self.begin <= value && value <= self.end
    }

    /// Whether a referenced value lies in the interval, both ends included.
    pub fn contains_ref(&self, value: &u64) -> (r: bool)
        ensures
            r == (self.begin <= *value && *value <= self.end),
    {
        self.begin <= *value && *value <= self.end
    }

    /// The interval read as two durations, its ends taken as milliseconds.
    pub fn pretty_time(&self) -> (r: Span<SinceStart>)
        ensures
            r.begin == duration_from_millis(self.begin),
            r.end == duration_from_millis(self.end),
    {
        Span { begin: duration_from_millis_exec(self.begin), end: duration_from_millis_exec(self.end) }
    }
}

impl Span<u32> {
    /// Constructor; only an interval with ordered ends can be built.
    pub fn new_u32(begin: u32, end: u32) -> (r: Res<Span<u32>>)
        ensures
            begin <= end ==> r == Res::<Span<u32>>::Ok(Span { begin, end }),
            begin > end ==> r == Res::<Span<u32>>::Err(Error::BadRange(begin as u64, end as u64)),
    {
        if begin > end {
            Err(Error::BadRange(begin as u64, end as u64))
        } else {
            Ok(Span { begin, end })
        }
    }

    /// Whether a value lies in the interval, both ends included.
    pub fn contains(&self, value: u32) -> (r: bool)
        ensures
            r == (self.begin <= value && value <= self.end),
    {
        self.begin <= value && value <= self.end
    }
}

/// A count of milliseconds as a duration, saturating at the representation's
/// bound.
pub open spec fn duration_from_millis(ms: u64) -> SinceStart {
    if ms * 1_000_000 <= u64::MAX {
        SinceStart { nanos: (ms * 1_000_000) as u64 }
    } else {
        SinceStart { nanos: u64::MAX }
    }
}

/// A count of milliseconds as a duration, computed.
pub fn duration_from_millis_exec(ms: u64) -> (r: SinceStart)
    ensures
        r == duration_from_millis(ms),
{
    match ms.checked_mul(1_000_000) {
        Some(nanos) => SinceStart { nanos },
        None => SinceStart { nanos: u64::MAX },
    }
}

/// A value that may sit in the decoding cache.
#[derive(Debug, Clone, Copy, PartialEq, Eq, Structural)]
pub enum CachedVal<T> {
    /// A cache hit, by its slot.
    Cached(u8),
    /// A fresh value.
    New(T),
}

/// A backtrace code: how one frame was encoded against the cache.
#[derive(Debug, Clone, Copy, PartialEq, Eq, Structural)]
pub enum Tag {
    /// A hit in the first slot.
    Hit0,
    /// A hit in the second slot.
    Hit1,
    /// A hit in a later slot.
    HitN(u8),
    /// A miss carrying the raw frame.
    Miss(u64),
}

/// One encoded backtrace frame.
#[derive(Debug, Clone, Copy, PartialEq, Eq, Structural)]
pub struct BacktraceCode {
    /// How the frame was encoded.
    pub tag: Tag,
    /// The cache bucket the frame hashes to.
    pub cache_bucket: u16,
}

/// A backtrace compressed against its predecessor.
#[derive(Debug)]
pub struct ShortAlloc {
    /// How many leading frames the predecessor shares.
    pub common_prefix: u64,
    /// The frames after the shared prefix.
    pub new_suffix: Vec<BacktraceCode>,
}

/// A consistency probe on the decoding cache.
#[derive(Debug, Clone, Copy, PartialEq, Eq, Structural)]
pub struct CacheCheck {
    /// The slot probed.
    pub ix: u16,
    /// The expected predecessor slot.
    pub pred: u16,
    /// The expected value.
    pub value: u64,
}

/// One source location.
#[derive(Debug, Clone)]
pub struct Loc {
    /// The encoded form.
    pub encoded: u32,
    /// Line in the file.
    pub line: usize,
    /// First column of the range.
    pub start_char: usize,
    /// Last column of the range.
    pub end_char: usize,
    /// Code of the file path in the string table.
    pub file_path_code: String,
    /// Code of the definition name in the string table.
    pub def_name_code: String,
}

} // verus!
