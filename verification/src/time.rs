//! Durations since the start of a stream, and absolute dates.
//!
//! All arithmetic here is total: subtraction and addition saturate at the
//! bounds of the representation, and every operation is described exactly by
//! a spec function.

use vstd::prelude::*;

verus! {

/// Nanoseconds per second.
pub const NANOS_PER_SEC: u64 = 1_000_000_000;

/// A duration since the start of the event stream, with nanosecond
/// resolution.
#[derive(Debug, Clone, Copy, PartialEq, Eq, Structural)]
pub struct SinceStart {
    /// Total nanoseconds.
    pub nanos: u64,
}

/// Saturating addition on `u64` values.
pub open spec fn sat_add_u64(a: u64, b: u64) -> u64 {
    if a + b <= u64::MAX {
        (a + b) as u64
    } else {
        u64::MAX
    }
}

/// Saturating subtraction on `u64` values.
pub open spec fn sat_sub_u64(a: u64, b: u64) -> u64 {
    if a >= b {
        (a - b) as u64
    } else {
        0
    }
}

impl SinceStart {
    /// The zero duration.
    pub fn zero() -> (r: SinceStart)
        ensures
            r.nanos == 0,
    {
        SinceStart { nanos: 0 }
    }

    /// A duration from a whole number of nanoseconds.
    pub fn from_nanos(nanos: u64) -> (r: SinceStart)
        ensures
            r.nanos == nanos,
    {
        SinceStart { nanos }
    }

    /// What `from_nano_timestamp` returns: the given seconds and nanoseconds
    /// as one nanosecond count, saturating at the representation's bound.
    pub open spec fn spec_from_nano_timestamp(secs: u64, subsec_nanos: u32) -> u64 {
        if secs * NANOS_PER_SEC + subsec_nanos <= u64::MAX {
            (secs * NANOS_PER_SEC + subsec_nanos) as u64
        } else {
            u64::MAX
        }
    }

    /// A duration from seconds plus a sub-second nanosecond count,
    /// saturating at the representation's bound.
    pub fn from_nano_timestamp(secs: u64, subsec_nanos: u32) -> (r: SinceStart)
        ensures
            r.nanos == Self::spec_from_nano_timestamp(secs, subsec_nanos),
    {
        match secs.checked_mul(NANOS_PER_SEC) {
            Some(base) => SinceStart { nanos: base.saturating_add(subsec_nanos as u64) },
            None => SinceStart { nanos: u64::MAX },
        }
    }

    /// Saturating difference: `self` minus `other`, floored at zero.
    pub fn sat_sub(&self, other: &SinceStart) -> (r: SinceStart)
        ensures
            r.nanos == sat_sub_u64(self.nanos, other.nanos),
    {
        SinceStart { nanos: self.nanos.saturating_sub(other.nanos) }
    }

    /// Saturating sum of two durations.
    pub fn sat_add(&self, other: &SinceStart) -> (r: SinceStart)
        ensures
            r.nanos == sat_add_u64(self.nanos, other.nanos),
    {
        SinceStart { nanos: self.nanos.saturating_add(other.nanos) }
    }

    /// Strict comparison.
    pub fn lt(&self, other: &SinceStart) -> (r: bool)
        ensures
            r == (self.nanos < other.nanos),
    {
        self.nanos < other.nanos
    }

    /// Division of a duration by a positive integer.
    pub fn div(&self, divisor: u64) -> (r: SinceStart)
        requires
            divisor > 0,
        ensures
            r.nanos == self.nanos / divisor,
    {
        SinceStart { nanos: self.nanos / divisor }
    }
}

/// An absolute date: seconds relative to the epoch plus a sub-second
/// nanosecond count.
#[derive(Debug, Clone, Copy, PartialEq, Eq, Structural)]
pub struct Date {
    /// Whole seconds since the epoch (may be negative).
    pub secs: i64,
    /// Sub-second nanoseconds, always below one second.
    pub nanos: u32,
}

impl Date {
    /// A well-formed date keeps its nanosecond part below one second.
    pub open spec fn wf(&self) -> bool {
        self.nanos < NANOS_PER_SEC
    }

    /// Constructor from a timestamp.
    pub fn from_timestamp(secs: i64, nanos: u32) -> (r: Date)
        requires
            nanos < NANOS_PER_SEC,
        ensures
            r == (Date { secs, nanos }),
            r.wf(),
    {
        Date { secs, nanos }
    }

    /// The date as a `(seconds, nanoseconds)` timestamp.
    pub fn timestamp(&self) -> (r: (i64, u32))
        ensures
            r.0 == self.secs,
            r.1 == self.nanos,
    {
        (self.secs, self.nanos)
    }

    /// Ordering on dates: seconds first, then the nanosecond part.
    pub open spec fn spec_le(self, other: Date) -> bool {
        self.secs < other.secs || (self.secs == other.secs && self.nanos <= other.nanos)
    }

    /// Strict ordering on dates.
    pub open spec fn spec_lt(self, other: Date) -> bool {
        self.spec_le(other) && self != other
    }

    /// Comparison, `self < other`.
    pub fn lt(&self, other: &Date) -> (r: bool)
        ensures
            r == self.spec_lt(*other),
    {
        self.secs < other.secs || (self.secs == other.secs && self.nanos < other.nanos)
    }

    /// Comparison, `self <= other`.
    pub fn le(&self, other: &Date) -> (r: bool)
        ensures
            r == self.spec_le(*other),
    {
        self.secs < other.secs || (self.secs == other.secs && self.nanos <= other.nanos)
    }

    /// What adding a duration to a date yields: the exact sum, saturating at
    /// the largest representable date.
    pub open spec fn spec_add(self, d: SinceStart) -> Date {
        let nano_sum: int = self.nanos as int + (d.nanos as int % NANOS_PER_SEC as int);
        let total: int = self.secs as int + (d.nanos as int / NANOS_PER_SEC as int) + (nano_sum
            / NANOS_PER_SEC as int);
        if total <= i64::MAX {
            Date { secs: total as i64, nanos: (nano_sum % NANOS_PER_SEC as int) as u32 }
        } else {
            Date { secs: i64::MAX, nanos: (NANOS_PER_SEC - 1) as u32 }
        }
    }

    /// The date a duration after this one.
    pub fn copy_add(&self, d: SinceStart) -> (r: Date)
        requires
            self.wf(),
        ensures
            r == self.spec_add(d),
            r.wf(),
    {
        let carry_secs: u64 = d.nanos / NANOS_PER_SEC;
        let rem: u64 = d.nanos % NANOS_PER_SEC;
        let nano_sum: u64 = self.nanos as u64 + rem;
        let extra: u64 = nano_sum / NANOS_PER_SEC;
        let new_nanos: u64 = nano_sum % NANOS_PER_SEC;
        // carry_secs + extra fits easily: carry_secs <= u64::MAX / NANOS_PER_SEC.
        let add_secs: u64 = carry_secs + extra;
        if add_secs <= i64::MAX as u64 && self.secs <= i64::MAX - add_secs as i64 {
            Date { secs: self.secs + add_secs as i64, nanos: new_nanos as u32 }
        } else {
            Date { secs: i64::MAX, nanos: (NANOS_PER_SEC - 1) as u32 }
        }
    }

    /// What moving a date one nanosecond back yields, saturating at the
    /// smallest representable date.
    pub open spec fn spec_sub_one_nano(self) -> Date {
        if self.nanos > 0 {
            Date { secs: self.secs, nanos: (self.nanos - 1) as u32 }
        } else if self.secs > i64::MIN {
            Date { secs: (self.secs - 1) as i64, nanos: (NANOS_PER_SEC - 1) as u32 }
        } else {
            self
        }
    }

    /// The date one nanosecond before this one.
    pub fn sub_one_nano(&self) -> (r: Date)
        requires
            self.wf(),
        ensures
            r == self.spec_sub_one_nano(),
            r.wf(),
    {
        if self.nanos > 0 {
            Date { secs: self.secs, nanos: self.nanos - 1 }
        } else if self.secs > i64::MIN {
            Date { secs: self.secs - 1, nanos: (NANOS_PER_SEC - 1) as u32 }
        } else {
            *self
        }
    }

    /// What moving a date one nanosecond forward yields, saturating at the
    /// largest representable date.
    pub open spec fn spec_add_one_nano(self) -> Date {
        if self.nanos + 1 < NANOS_PER_SEC {
            Date { secs: self.secs, nanos: (self.nanos + 1) as u32 }
        } else if self.secs < i64::MAX {
            Date { secs: (self.secs + 1) as i64, nanos: 0 }
        } else {
            self
        }
    }

    /// The date one nanosecond after this one.
    pub fn add_one_nano(&self) -> (r: Date)
        requires
            self.wf(),
        ensures
            r == self.spec_add_one_nano(),
            r.wf(),
    {
        if self.nanos + 1 < NANOS_PER_SEC as u32 {
            Date { secs: self.secs, nanos: self.nanos + 1 }
        } else if self.secs < i64::MAX {
            Date { secs: self.secs + 1, nanos: 0 }
        } else {
            *self
        }
    }
}

} // verus!
