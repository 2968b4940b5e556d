//! Size predicates: comparisons and inclusive ranges over an object's size.

use crate::err::{Error, Res};
use vstd::prelude::*;

verus! {

/// A comparison operator over sizes.
#[derive(Debug, Clone, Copy, PartialEq, Eq, Structural)]
pub enum Cmp {
    /// Strictly smaller.
    Lt,
    /// Smaller or equal.
    Le,
    /// Equal.
    Eq,
    /// Greater or equal.
    Ge,
    /// Strictly greater.
    Gt,
}

/// The kinds of size predicate a user can pick.
#[derive(Debug, Clone, Copy, PartialEq, Eq, Structural)]
pub enum Kind {
    /// A comparison against one value.
    Cmp(Cmp),
    /// An inclusive range.
    In,
}

impl Kind {
    /// All the kinds, in display order.
    pub fn all() -> (r: Vec<Kind>)
        ensures
            r@ == seq![
                Kind::Cmp(Cmp::Lt),
                Kind::Cmp(Cmp::Le),
                Kind::Cmp(Cmp::Eq),
                Kind::Cmp(Cmp::Ge),
                Kind::Cmp(Cmp::Gt),
                Kind::In,
            ],
    {
        let mut v: Vec<Kind> = Vec::new();
        v.push(Kind::Cmp(Cmp::Lt));
        v.push(Kind::Cmp(Cmp::Le));
        v.push(Kind::Cmp(Cmp::Eq));
        v.push(Kind::Cmp(Cmp::Ge));
        v.push(Kind::Cmp(Cmp::Gt));
        v.push(Kind::In);
        proof {
            assert(v@ =~= seq![
                Kind::Cmp(Cmp::Lt),
                Kind::Cmp(Cmp::Le),
                Kind::Cmp(Cmp::Eq),
                Kind::Cmp(Cmp::Ge),
                Kind::Cmp(Cmp::Gt),
                Kind::In,
            ]);
        }
        v
    }
}

/// A predicate over an object's size.
#[derive(Debug, Clone, Copy, PartialEq, Eq, Structural)]
pub enum SizeFilter {
    /// Compares the size against a value.
    Cmp {
        /// The operator.
        cmp: Cmp,
        /// The value compared against.
        val: u64,
    },
    /// Requires the size to lie in an inclusive range.
    In {
        /// Lower bound.
        lb: u64,
        /// Upper bound.
        ub: u64,
    },
}

/// Whether a size satisfies a comparison.
pub open spec fn cmp_matches(cmp: Cmp, size: u64, val: u64) -> bool {
    match cmp {
        Cmp::Lt => size < val,
        Cmp::Le => size <= val,
        Cmp::Eq => size == val,
        Cmp::Ge => size >= val,
        Cmp::Gt => size > val,
    }
}

/// Whether a size satisfies a size predicate: `size op val` for a
/// comparison, `lb <= size <= ub` for a range (both bounds inclusive).
pub open spec fn size_matches(f: SizeFilter, size: u64) -> bool {
    match f {
        SizeFilter::Cmp { cmp, val } => cmp_matches(cmp, size, val),
        SizeFilter::In { lb, ub } => lb <= size && size <= ub,
    }
}

impl SizeFilter {
    /// A well-formed range keeps its bounds ordered.
    pub open spec fn wf(&self) -> bool {
        match *self {
            SizeFilter::Cmp { .. } => true,
            SizeFilter::In { lb, ub } => lb <= ub,
        }
    }

    /// Range constructor; only a range with ordered bounds can be built.
    pub fn between(lb: u64, ub: u64) -> (r: Res<SizeFilter>)
        ensures
            lb <= ub ==> r == Res::<SizeFilter>::Ok(SizeFilter::In { lb, ub }),
            lb > ub ==> r == Res::<SizeFilter>::Err(Error::BadRange(lb, ub)),
            r is Ok ==> r->Ok_0.wf(),
    {
        if lb <= ub {
            Ok(SizeFilter::In { lb, ub })
        } else {
            Err(Error::BadRange(lb, ub))
        }
    }

    /// The default predicate of a given kind.
    pub fn default_of_cmp(kind: Kind) -> (r: SizeFilter)
        ensures
            r == match kind {
                Kind::Cmp(cmp) => SizeFilter::Cmp { cmp, val: 0u64 },
                Kind::In => SizeFilter::In { lb: 0u64, ub: 0u64 },
            },
            r.wf(),
    {
        match kind {
            Kind::Cmp(cmp) => SizeFilter::Cmp { cmp, val: 0 },
            Kind::In => SizeFilter::In { lb: 0, ub: 0 },
        }
    }

    /// The kind of this predicate.
    pub fn cmp_kind(&self) -> (r: Kind)
        ensures
            r == match *self {
                SizeFilter::Cmp { cmp, .. } => Kind::Cmp(cmp),
                SizeFilter::In { .. } => Kind::In,
            },
    {
        match self {
            SizeFilter::Cmp { cmp, .. } => Kind::Cmp(*cmp),
            SizeFilter::In { .. } => Kind::In,
        }
    }

    /// Whether a size satisfies this predicate.
    pub fn apply(&self, size: u64) -> (r: bool)
        ensures
            r == size_matches(*self, size),
    {
        match self {
            SizeFilter::Cmp { cmp, val } => match cmp {
                Cmp::Lt => size < *val,
                Cmp::Le => size <= *val,
                Cmp::Eq => size == *val,
                Cmp::Ge => size >= *val,
                Cmp::Gt => size > *val,
            },
            SizeFilter::In { lb, ub } => *lb <= size && size <= *ub,
        }
    }
}

impl Default for SizeFilter {
    /// The default size predicate: `size >= 0`, which accepts everything.
    fn default() -> (r: Self)
        ensures
            r == (SizeFilter::Cmp { cmp: Cmp::Ge, val: 0u64 }),
    {
        SizeFilter::Cmp { cmp: Cmp::Ge, val: 0 }
    }
}

} // verus!
