//! The engine's view of one allocated object.

use crate::time::SinceStart;
use vstd::prelude::*;

verus! {

/// One allocated object, as the predicate evaluators and the aggregator see
/// it: an identifier, a size, a birth time and an ordered label sequence.
#[derive(Debug, Clone)]
pub struct Alloc {
    /// Unique identifier of the object.
    pub uid: u64,
    /// Size of the object.
    pub size: u64,
    /// Time of creation, relative to the start of the stream.
    pub toc: SinceStart,
    /// Time of death, if the object is dead.
    pub tod: Option<SinceStart>,
    /// Ordered labels attached to the object.
    pub labels: Vec<String>,
}

/// The first position of an object with the identifier, `-1` if there is
/// none.
pub open spec fn alloc_index(s: Seq<Alloc>, uid: u64) -> int
    decreases s.len(),
{
    if s.len() == 0 {
        -1
    } else if s[0].uid == uid {
        0
    } else {
        let rest = alloc_index(s.drop_first(), uid);
        if rest == -1 {
            -1
        } else {
            rest + 1
        }
    }
}

/// The object a store resolves an identifier to, if any.
pub open spec fn store_get(s: Seq<Alloc>, uid: u64) -> Option<Alloc> {
    if alloc_index(s, uid) == -1 {
        None
    } else {
        Some(s[alloc_index(s, uid)])
    }
}

/// The position of an identifier is in range when it exists, and every
/// position misses when it does not.
pub proof fn lemma_alloc_index(s: Seq<Alloc>, uid: u64)
    ensures
        alloc_index(s, uid) == -1 ==> forall|i: int|
            0 <= i < s.len() ==> (#[trigger] s[i]).uid != uid,
        alloc_index(s, uid) != -1 ==> 0 <= alloc_index(s, uid) < s.len() && s[alloc_index(
            s,
            uid,
        )].uid == uid,
    decreases s.len(),
{
    if s.len() > 0 && s[0].uid != uid {
        lemma_alloc_index(s.drop_first(), uid);
        if alloc_index(s, uid) == -1 {
            assert forall|i: int| 0 <= i < s.len() implies (#[trigger] s[i]).uid != uid by {
                if i > 0 {
                    assert(s[i] == s.drop_first()[i - 1]);
                }
            }
        }
    }
}

/// A position whose predecessors all miss is the first position.
pub proof fn lemma_alloc_index_first(s: Seq<Alloc>, uid: u64, i: int)
    requires
        0 <= i < s.len(),
        s[i].uid == uid,
        forall|q: int| 0 <= q < i ==> (#[trigger] s[q]).uid != uid,
    ensures
        alloc_index(s, uid) == i,
    decreases s.len(),
{
    if i > 0 {
        lemma_alloc_index_first(s.drop_first(), uid, i - 1);
    }
}

/// The object a store resolves an identifier to, computed.
pub fn find_alloc(store: &Vec<Alloc>, uid: u64) -> (r: Option<&Alloc>)
    ensures
        match r {
            Some(a) => store_get(store@, uid) == Some(*a),
            None => store_get(store@, uid) is None,
        },
{
    let mut i: usize = 0;
    while i < store.len()
        invariant
            i <= store@.len(),
            forall|q: int| 0 <= q < i ==> (#[trigger] store@[q]).uid != uid,
        decreases store@.len() - i,
    {
        if store[i].uid == uid {
            proof {
                lemma_alloc_index_first(store@, uid, i as int);
            }
            return Some(&store[i]);
        }
        i += 1;
    }
    proof {
        lemma_alloc_index(store@, uid);
        if alloc_index(store@, uid) != -1 {
            assert(store@[alloc_index(store@, uid)].uid == uid);
        }
    }
    None
}

impl Alloc {
    /// Constructor for a live object.
    pub fn new(uid: u64, size: u64, toc: SinceStart, labels: Vec<String>) -> (r: Alloc)
        ensures
            r.uid == uid,
            r.size == size,
            r.toc == toc,
            r.tod is None,
            r.labels == labels,
    {
        Alloc { uid, size, toc, tod: None, labels }
    }
}

} // verus!
