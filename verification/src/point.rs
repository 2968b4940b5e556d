//! The point model: per-line value maps, and timestamped points of running
//! totals.

use crate::filter::Filters;
use crate::time::{sat_add_u64, sat_sub_u64, Date};
use crate::uid::LineUid;
use crate::err::{Error, Res};
use vstd::prelude::*;

verus! {

/// The first position holding the key, `-1` if there is none.
pub open spec fn key_index<K, T>(s: Seq<(K, T)>, k: K) -> int
    decreases s.len(),
{
    if s.len() == 0 {
        -1
    } else if s[0].0 == k {
        0
    } else {
        let rest = key_index(s.drop_first(), k);
        if rest == -1 {
            -1
        } else {
            rest + 1
        }
    }
}

/// The value at a key: the one carried by its first position.
pub open spec fn seq_get<K, T>(s: Seq<(K, T)>, k: K) -> Option<T> {
    if key_index(s, k) == -1 {
        None
    } else {
        Some(s[key_index(s, k)].1)
    }
}

/// The value at a key, or a default when the key is absent.
pub open spec fn seq_get_or<K, T>(s: Seq<(K, T)>, k: K, d: T) -> T {
    match seq_get(s, k) {
        Some(v) => v,
        None => d,
    }
}

/// Unique keys.
pub open spec fn keys_unique<K, T>(s: Seq<(K, T)>) -> bool {
    forall|i: int, j: int| 0 <= i < j < s.len() ==> (#[trigger] s[i]).0 != (#[trigger] s[j]).0
}

/// The position of a key is in range when it exists, and every position
/// misses when it does not.
pub proof fn lemma_key_index<K, T>(s: Seq<(K, T)>, k: K)
    ensures
        key_index(s, k) == -1 ==> forall|i: int| 0 <= i < s.len() ==> (#[trigger] s[i]).0 != k,
        key_index(s, k) != -1 ==> 0 <= key_index(s, k) < s.len() && s[key_index(s, k)].0 == k,
    decreases s.len(),
{
    if s.len() > 0 && s[0].0 != k {
        lemma_key_index(s.drop_first(), k);
        if key_index(s, k) == -1 {
            assert forall|i: int| 0 <= i < s.len() implies (#[trigger] s[i]).0 != k by {
                if i > 0 {
                    assert(s[i] == s.drop_first()[i - 1]);
                }
            }
        }
    }
}

/// A position whose predecessors all miss is the first position.
pub proof fn lemma_key_index_first<K, T>(s: Seq<(K, T)>, k: K, i: int)
    requires
        0 <= i < s.len(),
        s[i].0 == k,
        forall|q: int| 0 <= q < i ==> (#[trigger] s[q]).0 != k,
    ensures
        key_index(s, k) == i,
    decreases s.len(),
{
    if i > 0 {
        lemma_key_index_first(s.drop_first(), k, i - 1);
    }
}

/// Every position before the first position of a key misses it.
pub proof fn lemma_key_index_before<K, T>(s: Seq<(K, T)>, k: K)
    requires
        key_index(s, k) != -1,
    ensures
        forall|w: int| 0 <= w < key_index(s, k) ==> (#[trigger] s[w]).0 != k,
    decreases s.len(),
{
    if s.len() > 0 && s[0].0 != k {
        lemma_key_index(s.drop_first(), k);
        if key_index(s.drop_first(), k) != -1 {
            lemma_key_index_before(s.drop_first(), k);
            assert forall|w: int| 0 <= w < key_index(s, k) implies (#[trigger] s[w]).0 != k by {
                if w > 0 {
                    assert(s[w] == s.drop_first()[w - 1]);
                }
            }
        }
    }
}

/// Inserting a fresh key at any position adds the value at that key alone.
pub proof fn lemma_seq_get_insert<K, T>(s: Seq<(K, T)>, i: int, v: (K, T), k: K)
    requires
        0 <= i <= s.len(),
        seq_get(s, v.0) is None,
    ensures
        seq_get(s.insert(i, v), k) == if k == v.0 {
            Some(v.1)
        } else {
            seq_get(s, k)
        },
        keys_unique(s) ==> keys_unique(s.insert(i, v)),
    decreases s.len(),
{
    let t = s.insert(i, v);
    lemma_key_index(s, v.0);
    if i == 0 {
        assert(t[0] == v);
        assert(t.drop_first() =~= s);
        if k == v.0 {
            assert(seq_get(t, k) == Some(v.1));
        } else {
            assert(t[0].0 != k);
            if key_index(s, k) != -1 {
                let rr = key_index(s, k);
                lemma_key_index(s, k);
                assert(t[rr + 1] == t.drop_first()[rr]);
            }
            assert(seq_get(t, k) == seq_get(s, k));
        }
    } else {
        assert(t[0] == s[0]);
        assert(t.drop_first() =~= s.drop_first().insert(i - 1, v));
        assert(seq_get(s.drop_first(), v.0) is None) by {
            lemma_key_index(s.drop_first(), v.0);
            if key_index(s.drop_first(), v.0) != -1 {
                let q = key_index(s.drop_first(), v.0);
                assert(s[q + 1] == s.drop_first()[q]);
                assert(s[q + 1].0 == v.0);
            }
        }
        lemma_seq_get_insert(s.drop_first(), i - 1, v, k);
        if t[0].0 == k {
            assert(s[0].0 == k);
            assert(seq_get(t, k) == Some(t[0].1));
            assert(seq_get(s, k) == Some(s[0].1));
        } else {
            assert(s[0].0 != k);
            if key_index(t.drop_first(), k) != -1 {
                let rr = key_index(t.drop_first(), k);
                lemma_key_index(t.drop_first(), k);
                assert(t[rr + 1] == t.drop_first()[rr]);
            }
            assert(seq_get(t, k) == seq_get(t.drop_first(), k));
            if key_index(s.drop_first(), k) != -1 {
                let rr = key_index(s.drop_first(), k);
                lemma_key_index(s.drop_first(), k);
                assert(s[rr + 1] == s.drop_first()[rr]);
            }
            assert(seq_get(s, k) == seq_get(s.drop_first(), k));
        }
    }
    if keys_unique(s) {
        assert forall|q: int, w: int|
            0 <= q < w < t.len() implies (#[trigger] t[q]).0 != (#[trigger] t[w]).0 by {
            lemma_key_index(s, v.0);
            if q == i {
                assert(t[w] == s[w - 1]);
                assert(s[w - 1].0 != v.0);
            } else if w == i {
                let qq = if q < i {
                    q
                } else {
                    q - 1
                };
                assert(t[q] == s[qq]);
                assert(s[qq].0 != v.0);
            } else {
                let qq = if q < i {
                    q
                } else {
                    q - 1
                };
                let ww = if w < i {
                    w
                } else {
                    w - 1
                };
                assert(t[q] == s[qq] && t[w] == s[ww]);
                assert(s[qq].0 != s[ww].0);
            }
        }
    }
}

/// Updating the position of a key changes the value at that key alone.
pub proof fn lemma_seq_get_update<K, T>(s: Seq<(K, T)>, i: int, v: (K, T), k: K)
    requires
        keys_unique(s),
        0 <= i < s.len(),
        v.0 == s[i].0,
    ensures
        seq_get(s.update(i, v), k) == if k == v.0 {
            Some(v.1)
        } else {
            seq_get(s, k)
        },
        keys_unique(s.update(i, v)),
    decreases s.len(),
{
    let t = s.update(i, v);
    assert forall|q: int, w: int|
        0 <= q < w < t.len() implies (#[trigger] t[q]).0 != (#[trigger] t[w]).0 by {
        assert(s[q].0 != s[w].0);
    }
    if k == v.0 {
        assert forall|q: int| 0 <= q < i implies (#[trigger] t[q]).0 != k by {
            assert(s[q].0 != s[i].0);
        }
        lemma_key_index_first(t, k, i);
    } else {
        lemma_key_index(s, k);
        lemma_key_index(t, k);
        if key_index(s, k) != -1 {
            let q = key_index(s, k);
            assert(t[q].0 == k);
            assert forall|w: int| 0 <= w < q implies (#[trigger] t[w]).0 != k by {
                lemma_key_index(s, k);
                if w == i {
                } else {
                    assert(s[w].0 != k) by {
                        if key_index(s, k) < w {
                            assert(s[key_index(s, k)].0 != s[w].0);
                        }
                    }
                }
            }
            lemma_key_index_first(t, k, q);
        } else {
            if key_index(t, k) != -1 {
                assert(t[key_index(t, k)].0 == k);
                assert(key_index(t, k) != i);
                assert(s[key_index(t, k)].0 == k);
            }
        }
    }
}

/// Appending a fresh key adds the value at that key alone.
pub proof fn lemma_seq_get_push<K, T>(s: Seq<(K, T)>, v: (K, T), k: K)
    requires
        seq_get(s, v.0) is None,
    ensures
        seq_get(s.push(v), k) == if k == v.0 {
            Some(v.1)
        } else {
            seq_get(s, k)
        },
        keys_unique(s) ==> keys_unique(s.push(v)),
{
    let t = s.push(v);
    lemma_key_index(s, v.0);
    if k == v.0 {
        lemma_key_index_first(t, k, s.len() as int);
    } else {
        lemma_key_index(s, k);
        lemma_key_index(t, k);
        if key_index(s, k) != -1 {
            let q = key_index(s, k);
            assert(t[q].0 == k);
            lemma_key_index_before(s, k);
            assert forall|w: int| 0 <= w < q implies (#[trigger] t[w]).0 != k by {
                assert(s[w].0 != k);
            }
            lemma_key_index_first(t, k, q);
        } else {
            if key_index(t, k) != -1 {
                assert(t[key_index(t, k)].0 == k);
                if key_index(t, k) < s.len() {
                    assert(s[key_index(t, k)].0 == k);
                }
            }
        }
    }
    if keys_unique(s) {
        assert forall|i: int, j: int|
            0 <= i < j < t.len() implies (#[trigger] t[i]).0 != (#[trigger] t[j]).0 by {
            if j < s.len() {
                assert(s[i].0 != s[j].0);
            } else {
                assert(s[i].0 != k || true);
            }
        }
    }
}

/// A mapping from chart lines to values, with one entry per line known at
/// its creation.
#[derive(Debug)]
pub struct PointVal<T> {
    /// The entries, keyed uniquely.
    pub entries: Vec<(LineUid, T)>,
}

impl<T> PointVal<T> {
    /// Unique keys.
    pub open spec fn wf(&self) -> bool {
        keys_unique(self.entries@)
    }

    /// The value at a line, if the line is known.
    pub open spec fn spec_get(&self, k: LineUid) -> Option<T> {
        seq_get(self.entries@, k)
    }

    /// The value at a line, or a default.
    pub open spec fn spec_get_or(&self, k: LineUid, d: T) -> T {
        seq_get_or(self.entries@, k, d)
    }

    /// Whether the line is known.
    pub open spec fn contains(&self, k: LineUid) -> bool {
        self.spec_get(k) is Some
    }
}

impl<T: Copy> PointVal<T> {
    /// Constructor: one entry per line of the registry, at a default value.
    pub fn new(default: T, filters: &Filters) -> (r: PointVal<T>)
        requires
            filters.wf(),
        ensures
            r.wf(),
            r.entries@.len() == filters.spec_line_uids().len(),
            forall|i: int|
                0 <= i < r.entries@.len() ==> #[trigger] r.entries@[i] == (
                filters.spec_line_uids()[i],
                default,
            ),
            forall|k: LineUid| #[trigger]
                r.spec_get(k) == if filters.spec_line_uids().contains(k) {
                    Some(default)
                } else {
                    None::<T>
                },
    {
        let uids = filters.line_uids();
        let ghost us = filters.spec_line_uids();
        let mut entries: Vec<(LineUid, T)> = Vec::new();
        let mut i: usize = 0;
        while i < uids.len()
            invariant
                uids@ == us,
                i <= us.len(),
                entries@.len() == i,
                forall|q: int| 0 <= q < i ==> #[trigger] entries@[q] == (us[q], default),
            decreases us.len() - i,
        {
            entries.push((uids[i], default));
            i += 1;
        }
        let r = PointVal { entries };
        proof {
            assert(us[0] == LineUid::Everything);
            assert(us[1] == LineUid::CatchAll);
            assert forall|q: int, w: int|
                0 <= q < w < r.entries@.len() implies (#[trigger] r.entries@[q]).0 != (
            #[trigger] r.entries@[w]).0 by {
                lemma_line_uids_unique(*filters, q, w);
            }
            assert forall|k: LineUid| #[trigger]
                r.spec_get(k) == if us.contains(k) {
                    Some(default)
                } else {
                    None::<T>
                } by {
                lemma_key_index(r.entries@, k);
                if us.contains(k) {
                    let q = choose|q: int| 0 <= q < us.len() && us[q] == k;
                    assert(r.entries@[q].0 == k);
                } else {
                    if key_index(r.entries@, k) != -1 {
                        let q = key_index(r.entries@, k);
                        assert(r.entries@[q].0 == k);
                        assert(us[q] == k);
                    }
                }
            }
        }
        r
    }

    /// The value at a line, or a default when the line is unknown.
    pub fn get_or(&self, k: LineUid, default: T) -> (r: T)
        ensures
            r == self.spec_get_or(k, default),
    {
        let mut i: usize = 0;
        while i < self.entries.len()
            invariant
                i <= self.entries@.len(),
                forall|q: int| 0 <= q < i ==> (#[trigger] self.entries@[q]).0 != k,
            decreases self.entries@.len() - i,
        {
            if self.entries[i].0 == k {
                proof {
                    lemma_key_index_first(self.entries@, k, i as int);
                }
                return self.entries[i].1;
            }
            i += 1;
        }
        proof {
            lemma_key_index(self.entries@, k);
            if key_index(self.entries@, k) != -1 {
                assert(self.entries@[key_index(self.entries@, k)].0 == k);
            }
        }
        default
    }
}

/// The uniqueness of the registry's line keys.
pub proof fn lemma_line_uids_unique(filters: Filters, q: int, w: int)
    requires
        filters.wf(),
        0 <= q < w < filters.spec_line_uids().len(),
    ensures
        filters.spec_line_uids()[q] != filters.spec_line_uids()[w],
{
    let us = filters.spec_line_uids();
    if q >= 2 && w >= 2 {
        assert(us[q] == LineUid::Filter(crate::filter::fuid(filters.filters@[q - 2])));
        assert(us[w] == LineUid::Filter(crate::filter::fuid(filters.filters@[w - 2])));
        assert(crate::filter::fuid(filters.filters@[q - 2]) != crate::filter::fuid(
            filters.filters@[w - 2],
        ));
    } else if q == 0 {
        assert(us[0] == LineUid::Everything);
        if w == 1 {
            assert(us[1] == LineUid::CatchAll);
        } else {
            assert(us[w] == LineUid::Filter(crate::filter::fuid(filters.filters@[w - 2])));
        }
    } else {
        assert(us[1] == LineUid::CatchAll);
        assert(us[w] == LineUid::Filter(crate::filter::fuid(filters.filters@[w - 2])));
    }
}

/// A timestamped point: the running totals per line at one date.
#[derive(Debug)]
pub struct Point {
    /// The date of the point.
    pub key: Date,
    /// The running totals per line.
    pub vals: PointVal<u64>,
}

/// An ordered sequence of points.
pub type Points = Vec<Point>;

impl PointVal<(u64, u64)> {
    /// Adds a size to the *added* half of a line's delta, creating the entry
    /// when the line is unknown; the sum saturates.
    pub fn add_birth(&mut self, k: LineUid, size: u64)
        requires
            old(self).wf(),
        ensures
            final(self).wf(),
            final(self).spec_get(k) == Some(
                (
                    sat_add_u64(old(self).spec_get_or(k, (0u64, 0u64)).0, size),
                    old(self).spec_get_or(k, (0u64, 0u64)).1,
                ),
            ),
            forall|w: LineUid| w != k ==> #[trigger] final(self).spec_get(w) == old(
                self,
            ).spec_get(w),
            final(self).entries@.len() == old(self).entries@.len() + (if old(self).contains(k) {
                0int
            } else {
                1int
            }),
    {
        let mut i: usize = 0;
        while i < self.entries.len()
            invariant
                *self == *old(self),
                old(self).wf(),
                i <= self.entries@.len(),
                forall|q: int| 0 <= q < i ==> (#[trigger] self.entries@[q]).0 != k,
            decreases self.entries@.len() - i,
        {
            if self.entries[i].0 == k {
                proof {
                    lemma_key_index_first(self.entries@, k, i as int);
                }
                let (_, d) = self.entries[i];
                let v = (d.0.saturating_add(size), d.1);
                let vv = (k, v);
                proof {
                    lemma_seq_get_update(self.entries@, i as int, vv, k);
                }
                let ghost prev = self.entries@;
                self.entries.set(i, vv);
                proof {
                    assert forall|w: LineUid| w != k implies #[trigger] self.spec_get(w) == old(
                        self,
                    ).spec_get(w) by {
                        lemma_seq_get_update(prev, i as int, vv, w);
                    }
                }
                return ;
            }
            i += 1;
        }
        proof {
            lemma_key_index(self.entries@, k);
            if key_index(self.entries@, k) != -1 {
                assert(self.entries@[key_index(self.entries@, k)].0 == k);
            }
        }
        let v = (k, (size, 0u64));
        let ghost prev = self.entries@;
        self.entries.push(v);
        proof {
            lemma_seq_get_push(prev, v, k);
            assert forall|w: LineUid| w != k implies #[trigger] self.spec_get(w) == old(
                self,
            ).spec_get(w) by {
                lemma_seq_get_push(prev, v, w);
            }
        }
    }

    /// Adds a size to the *removed* half of a line's delta; fails, changing
    /// nothing, exactly when the line is unknown; the sum saturates.
    pub fn add_death(&mut self, k: LineUid, size: u64) -> (r: Res<()>)
        requires
            old(self).wf(),
        ensures
            final(self).wf(),
            match r {
                Ok(()) => old(self).contains(k) && final(self).spec_get(k) == Some(
                    (
                        old(self).spec_get(k)->Some_0.0,
                        sat_add_u64(old(self).spec_get(k)->Some_0.1, size),
                    ),
                ) && (forall|w: LineUid|
                    w != k ==> #[trigger] final(self).spec_get(w) == old(self).spec_get(w))
                    && final(self).entries@.len() == old(self).entries@.len(),
                Err(e) => !old(self).contains(k) && *final(self) == *old(self) && e
                    == Error::UnknownLine(k),
            },
    {
        let mut i: usize = 0;
        while i < self.entries.len()
            invariant
                *self == *old(self),
                old(self).wf(),
                i <= self.entries@.len(),
                forall|q: int| 0 <= q < i ==> (#[trigger] self.entries@[q]).0 != k,
            decreases self.entries@.len() - i,
        {
            if self.entries[i].0 == k {
                proof {
                    lemma_key_index_first(self.entries@, k, i as int);
                }
                let (_, d) = self.entries[i];
                let v = (d.0, d.1.saturating_add(size));
                let vv = (k, v);
                proof {
                    lemma_seq_get_update(self.entries@, i as int, vv, k);
                }
                let ghost prev = self.entries@;
                self.entries.set(i, vv);
                proof {
                    assert forall|w: LineUid| w != k implies #[trigger] self.spec_get(w) == old(
                        self,
                    ).spec_get(w) by {
                        lemma_seq_get_update(prev, i as int, vv, w);
                    }
                }
                return Ok(());
            }
            i += 1;
        }
        proof {
            lemma_key_index(self.entries@, k);
            if key_index(self.entries@, k) != -1 {
                assert(self.entries@[key_index(self.entries@, k)].0 == k);
            }
        }
        Err(Error::UnknownLine(k))
    }
}

/// The new running total of one line: the old total plus the bucket's added
/// amount, minus its removed amount; both operations saturate.
pub open spec fn advanced_val(base: u64, delta: (u64, u64)) -> u64 {
    sat_sub_u64(sat_add_u64(base, delta.0), delta.1)
}

impl PointVal<u64> {
    /// The running totals after applying a bucket of deltas: one entry per
    /// line of the bucket, in the bucket's order.
    pub fn advance(bucket: &PointVal<(u64, u64)>, base: &PointVal<u64>) -> (r: PointVal<u64>)
        requires
            bucket.wf(),
        ensures
            r.wf(),
            r.entries@.len() == bucket.entries@.len(),
            forall|i: int|
                0 <= i < bucket.entries@.len() ==> #[trigger] r.entries@[i] == (
                bucket.entries@[i].0,
                advanced_val(base.spec_get_or(bucket.entries@[i].0, 0u64), bucket.entries@[i].1),
            ),
            forall|k: LineUid| #[trigger]
                r.spec_get(k) == match bucket.spec_get(k) {
                    Some(delta) => Some(advanced_val(base.spec_get_or(k, 0u64), delta)),
                    None => None::<u64>,
                },
    {
        let mut entries: Vec<(LineUid, u64)> = Vec::new();
        let mut i: usize = 0;
        while i < bucket.entries.len()
            invariant
                bucket.wf(),
                i <= bucket.entries@.len(),
                entries@.len() == i,
                forall|q: int|
                    0 <= q < i ==> #[trigger] entries@[q] == (
                    bucket.entries@[q].0,
                    advanced_val(
                        base.spec_get_or(bucket.entries@[q].0, 0u64),
                        bucket.entries@[q].1,
                    ),
                ),
            decreases bucket.entries@.len() - i,
        {
            let (k, delta) = bucket.entries[i];
            let base_val = base.get_or(k, 0);
            let v = base_val.saturating_add(delta.0).saturating_sub(delta.1);
            entries.push((k, v));
            i += 1;
        }
        let r = PointVal { entries };
        proof {
            assert forall|q: int, w: int|
                0 <= q < w < r.entries@.len() implies (#[trigger] r.entries@[q]).0 != (
            #[trigger] r.entries@[w]).0 by {
                assert(bucket.entries@[q].0 != bucket.entries@[w].0);
            }
            assert forall|k: LineUid| #[trigger]
                r.spec_get(k) == match bucket.spec_get(k) {
                    Some(delta) => Some(advanced_val(base.spec_get_or(k, 0u64), delta)),
                    None => None::<u64>,
                } by {
                lemma_key_index(r.entries@, k);
                lemma_key_index(bucket.entries@, k);
                if key_index(bucket.entries@, k) != -1 {
                    let q = key_index(bucket.entries@, k);
                    assert(r.entries@[q].0 == k);
                    assert forall|w: int| 0 <= w < q implies (#[trigger] r.entries@[w]).0
                        != k by {
                        assert(bucket.entries@[w].0 != bucket.entries@[q].0);
                    }
                    lemma_key_index_first(r.entries@, k, q);
                } else {
                    if key_index(r.entries@, k) != -1 {
                        let q = key_index(r.entries@, k);
                        assert(r.entries@[q].0 == k);
                        assert(bucket.entries@[q].0 == k);
                    }
                }
            }
        }
        r
    }

    /// A copy of the totals with every line at zero.
    pub fn zeroed(&self) -> (r: PointVal<u64>)
        ensures
            r.entries@.len() == self.entries@.len(),
            forall|i: int|
                0 <= i < self.entries@.len() ==> #[trigger] r.entries@[i] == (
                self.entries@[i].0,
                0u64,
            ),
            self.wf() ==> r.wf(),
            self.wf() ==> forall|k: LineUid| #[trigger]
                r.spec_get(k) == match self.spec_get(k) {
                    Some(_) => Some(0u64),
                    None => None::<u64>,
                },
    {
        let mut entries: Vec<(LineUid, u64)> = Vec::new();
        let mut i: usize = 0;
        while i < self.entries.len()
            invariant
                i <= self.entries@.len(),
                entries@.len() == i,
                forall|q: int|
                    0 <= q < i ==> #[trigger] entries@[q] == (self.entries@[q].0, 0u64),
            decreases self.entries@.len() - i,
        {
            entries.push((self.entries[i].0, 0));
            i += 1;
        }
        let r = PointVal { entries };
        proof {
            if self.wf() {
                assert forall|q: int, w: int|
                    0 <= q < w < r.entries@.len() implies (#[trigger] r.entries@[q]).0 != (
                #[trigger] r.entries@[w]).0 by {
                    assert(self.entries@[q].0 != self.entries@[w].0);
                }
                assert forall|k: LineUid| #[trigger]
                    r.spec_get(k) == match self.spec_get(k) {
                        Some(_) => Some(0u64),
                        None => None::<u64>,
                    } by {
                    lemma_key_index(r.entries@, k);
                    lemma_key_index(self.entries@, k);
                    if key_index(self.entries@, k) != -1 {
                        let q = key_index(self.entries@, k);
                        assert(r.entries@[q].0 == k);
                        assert forall|w: int| 0 <= w < q implies (#[trigger] r.entries@[w]).0
                            != k by {
                            assert(self.entries@[w].0 != self.entries@[q].0);
                        }
                        lemma_key_index_first(r.entries@, k, q);
                    } else {
                        if key_index(r.entries@, k) != -1 {
                            let q = key_index(r.entries@, k);
                            assert(r.entries@[q].0 == k);
                            assert(self.entries@[q].0 == k);
                        }
                    }
                }
            }
        }
        r
    }

    /// A copy of the totals.
    pub fn duplicate(&self) -> (r: PointVal<u64>)
        ensures
            r.entries@ == self.entries@,
    {
        let mut entries: Vec<(LineUid, u64)> = Vec::new();
        let mut i: usize = 0;
        while i < self.entries.len()
            invariant
                i <= self.entries@.len(),
                entries@ == self.entries@.take(i as int),
            decreases self.entries@.len() - i,
        {
            entries.push(self.entries[i]);
            proof {
                assert(entries@ =~= self.entries@.take(i as int + 1));
            }
            i += 1;
        }
        proof {
            assert(entries@ =~= self.entries@);
        }
        PointVal { entries }
    }
}

} // verus!
