//! The engine's error taxonomy.

use crate::uid::{FilterUid, SubFilterUid};
use crate::uid::LineUid;
use vstd::prelude::*;

verus! {

/// The class an error belongs to.
#[derive(Debug, Clone, Copy, PartialEq, Eq, Structural)]
pub enum ErrorKind {
    /// An invalid configuration (bad range, illegal regex, empty name...).
    Config,
    /// A bookkeeping inconsistency (duplicate or unknown identifiers).
    Consistency,
    /// A failure of the event source.
    Source,
    /// Caller misuse of an internal precondition.
    Internal,
}

/// Everything that can go wrong in the engine.
#[derive(Debug, Clone, PartialEq, Eq)]
pub enum Error {
    /// A filter with this identifier already exists.
    UidCollision(FilterUid),
    /// No filter with this identifier exists.
    UnknownUid(FilterUid),
    /// No sub-filter with this identifier exists.
    UnknownSubUid(SubFilterUid),
    /// A point value has no entry for this line.
    UnknownLine(LineUid),
    /// A death notification referenced an object the source cannot resolve.
    UnresolvedDead(u64),
    /// A size range with its lower bound above its upper bound.
    BadRange(u64, u64),
    /// A label specification with malformed or invalid regex delimiters.
    IllegalRegex(String),
    /// A color string that is not of the `#rrggbb` form.
    IllegalColor(String),
    /// A sub-filter with this identifier already exists.
    SubUidCollision(SubFilterUid),
    /// No fresh identifier is left.
    UidsExhausted,
    /// An unexpected event code in the trace.
    BadEventCode(u32),
    /// A filter name must not be empty.
    EmptyName,
    /// A malformed wire encoding of a filter configuration.
    BadWire,
    /// The event source failed to read.
    Source(String),
    /// An operation was invoked while an internal precondition did not hold.
    InternalPrecondition,
}

impl Error {
    /// The class this error belongs to.
    pub fn kind(&self) -> (k: ErrorKind)
        ensures
            k == self.spec_kind(),
    {
        match self {
            Error::UidCollision(_) => ErrorKind::Consistency,
            Error::UnknownUid(_) => ErrorKind::Consistency,
            Error::UnknownSubUid(_) => ErrorKind::Consistency,
            Error::UnknownLine(_) => ErrorKind::Consistency,
            Error::UnresolvedDead(_) => ErrorKind::Consistency,
            Error::BadRange(_, _) => ErrorKind::Config,
            Error::IllegalRegex(_) => ErrorKind::Config,
            Error::IllegalColor(_) => ErrorKind::Config,
            Error::SubUidCollision(_) => ErrorKind::Consistency,
            Error::UidsExhausted => ErrorKind::Consistency,
            Error::BadEventCode(_) => ErrorKind::Source,
            Error::EmptyName => ErrorKind::Config,
            Error::BadWire => ErrorKind::Config,
            Error::Source(_) => ErrorKind::Source,
            Error::InternalPrecondition => ErrorKind::Internal,
        }
    }

    /// Which class each variant belongs to.
    pub open spec fn spec_kind(&self) -> ErrorKind {
        match self {
            Error::UidCollision(_) => ErrorKind::Consistency,
            Error::UnknownUid(_) => ErrorKind::Consistency,
            Error::UnknownSubUid(_) => ErrorKind::Consistency,
            Error::UnknownLine(_) => ErrorKind::Consistency,
            Error::UnresolvedDead(_) => ErrorKind::Consistency,
            Error::BadRange(_, _) => ErrorKind::Config,
            Error::IllegalRegex(_) => ErrorKind::Config,
            Error::IllegalColor(_) => ErrorKind::Config,
            Error::SubUidCollision(_) => ErrorKind::Consistency,
            Error::UidsExhausted => ErrorKind::Consistency,
            Error::BadEventCode(_) => ErrorKind::Source,
            Error::EmptyName => ErrorKind::Config,
            Error::BadWire => ErrorKind::Config,
            Error::Source(_) => ErrorKind::Source,
            Error::InternalPrecondition => ErrorKind::Internal,
        }
    }
}

/// The engine's result type.
pub type Res<T> = Result<T, Error>;

} // verus!
