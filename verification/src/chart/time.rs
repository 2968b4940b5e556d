//! The time aggregation engine: ingests birth and death events, coalesces
//! them into time buckets, and flushes the buckets into running-total
//! points.

use crate::allocs::Alloc;
use crate::err::{Error, Res};
use crate::filter::{first_match, Filters};
use crate::point::{advanced_val, key_index, lemma_key_index, lemma_key_index_first, Point, PointVal, Points};
use crate::time::{sat_add_u64, sat_sub_u64, Date, SinceStart};
use crate::uid::LineUid;
use vstd::prelude::*;

verus! {

/// The mathematical model of a per-line value map.
pub open spec fn pv_map<T>(pv: PointVal<T>) -> Map<LineUid, T> {
    Map::new(|k: LineUid| pv.contains(k), |k: LineUid| pv.spec_get(k)->Some_0)
}

/// The models of the pending buckets, in order.
pub open spec fn buckets_model(m: Seq<(Date, PointVal<(u64, u64)>)>) -> Seq<
    (Date, Map<LineUid, (u64, u64)>),
> {
    m.map_values(|e: (Date, PointVal<(u64, u64)>)| (e.0, pv_map(e.1)))
}

/// The models of a point sequence, in order.
pub open spec fn points_model(ps: Seq<Point>) -> Seq<(Date, Map<LineUid, u64>)> {
    ps.map_values(|p: Point| (p.key, pv_map(p.vals)))
}

/// The running totals after one bucket of deltas: for every line of the
/// bucket, the old total (zero for a line the totals do not know) plus the
/// added amount, minus the removed amount; both operations saturate.
pub open spec fn adv_map(base: Map<LineUid, u64>, delta: Map<LineUid, (u64, u64)>) -> Map<
    LineUid,
    u64,
> {
    Map::new(
        |k: LineUid| delta.dom().contains(k),
        |k: LineUid|
            advanced_val(
                if base.dom().contains(k) {
                    base[k]
                } else {
                    0u64
                },
                delta[k],
            ),
    )
}

/// The points a flush emits, before border synthesis: one per bucket, in
/// order, each carrying the running totals after that bucket.
pub open spec fn flush_points(
    base: Map<LineUid, u64>,
    seq: Seq<(Date, Map<LineUid, (u64, u64)>)>,
) -> Seq<(Date, Map<LineUid, u64>)>
    decreases seq.len(),
{
    if seq.len() == 0 {
        Seq::empty()
    } else {
        let nb = adv_map(base, seq[0].1);
        seq![(seq[0].0, nb)] + flush_points(nb, seq.drop_first())
    }
}

/// The running totals after a flush.
pub open spec fn flush_base(base: Map<LineUid, u64>, seq: Seq<(Date, Map<LineUid, (u64, u64)>)>) -> Map<
    LineUid,
    u64,
>
    decreases seq.len(),
{
    if seq.len() == 0 {
        base
    } else {
        flush_base(adv_map(base, seq[0].1), seq.drop_first())
    }
}

/// The zero totals over a domain.
pub open spec fn zero_of(m: Map<LineUid, u64>) -> Map<LineUid, u64> {
    Map::new(|k: LineUid| m.dom().contains(k), |k: LineUid| 0u64)
}

/// Total size over time: the central stateful engine.
///
/// It is mutated only by `get_allocs` (which may add pending buckets) and
/// `generate_points` (which drains the pending buckets into the baseline and
/// emits points); `reset` returns it to the zero baseline and rewinds the
/// cursor to the stream origin, forcing a full replay.
#[derive(Debug)]
pub struct TimeSize {
    /// The cursor: one minimal time unit past the last fully processed
    /// stream time; the next pull strictly excludes everything seen.
    pub timestamp: SinceStart,
    /// The baseline: current cumulative size per line.
    pub size: PointVal<u64>,
    /// The pending buckets, ordered by strictly ascending date.
    pub map: Vec<(Date, PointVal<(u64, u64)>)>,
    /// The coalescing cursor: the most recent bucket-opening real time.
    pub last_time_stamp: Option<SinceStart>,
}

impl TimeSize {
    /// Well-formed: pending dates strictly ascending and well-formed, every
    /// value map with unique keys.
    pub open spec fn wf(&self) -> bool {
        &&& self.size.wf()
        &&& forall|i: int, j: int|
            0 <= i < j < self.map@.len() ==> (#[trigger] self.map@[i]).0.spec_lt(
                (#[trigger] self.map@[j]).0,
            )
        &&& forall|i: int| 0 <= i < self.map@.len() ==> (#[trigger] self.map@[i]).0.wf()
        &&& forall|i: int| 0 <= i < self.map@.len() ==> (#[trigger] self.map@[i]).1.wf()
    }

    /// Constructor: zero baseline seeded from the current filter set, empty
    /// pending buckets, cursor at the stream origin.
    pub fn new(filters: &Filters) -> (r: TimeSize)
        requires
            filters.wf(),
        ensures
            r.wf(),
            r.timestamp.nanos == 0,
            r.map@.len() == 0,
            r.last_time_stamp is None,
            pv_map(r.size) == Map::new(
                |k: LineUid| filters.spec_line_uids().contains(k),
                |k: LineUid| 0u64,
            ),
    {
        let r = TimeSize {
            timestamp: SinceStart::zero(),
            size: PointVal::new(0, filters),
            map: Vec::new(),
            last_time_stamp: None,
        };
        proof {
            assert(pv_map(r.size) =~= Map::new(
                |k: LineUid| filters.spec_line_uids().contains(k),
                |k: LineUid| 0u64,
            ));
        }
        r
    }

    /// Default constructor; the same zero state as `new`.
    pub fn default(filters: &Filters) -> (r: TimeSize)
        requires
            filters.wf(),
        ensures
            r.wf(),
            r.timestamp.nanos == 0,
            r.map@.len() == 0,
            r.last_time_stamp is None,
            pv_map(r.size) == Map::new(
                |k: LineUid| filters.spec_line_uids().contains(k),
                |k: LineUid| 0u64,
            ),
    {
        Self::new(filters)
    }

    /// Returns the engine to the zero baseline, reseeded from the current
    /// filter set, and rewinds the cursor to the stream origin, forcing a
    /// full replay.
    pub fn reset(&mut self, filters: &Filters)
        requires
            filters.wf(),
        ensures
            final(self).wf(),
            final(self).timestamp.nanos == 0,
            final(self).map@.len() == 0,
            final(self).last_time_stamp is None,
            pv_map(final(self).size) == Map::new(
                |k: LineUid| filters.spec_line_uids().contains(k),
                |k: LineUid| 0u64,
            ),
    {
        self.timestamp = SinceStart::zero();
        self.last_time_stamp = None;
        self.size = PointVal::new(0, filters);
        self.map = Vec::new();
        proof {
            assert(pv_map(self.size) =~= Map::new(
                |k: LineUid| filters.spec_line_uids().contains(k),
                |k: LineUid| 0u64,
            ));
        }
    }

    /// Drains the pending buckets, in ascending date order, into the
    /// baseline, and emits one point of running totals per bucket.
    ///
    /// When exactly one point results, two border points are synthesized
    /// around it — a zero-valued point one nanosecond before and a duplicate
    /// one nanosecond after — so an isolated event still renders as a
    /// visible flat segment.
    pub fn generate_points(&mut self) -> (points: Points)
        requires
            old(self).wf(),
        ensures
            final(self).wf(),
            final(self).map@.len() == 0,
            final(self).timestamp == old(self).timestamp,
            final(self).last_time_stamp == old(self).last_time_stamp,
            pv_map(final(self).size) == flush_base(
                pv_map(old(self).size),
                buckets_model(old(self).map@),
            ),
            points_model(points@) == flushed_points_model(
                pv_map(old(self).size),
                buckets_model(old(self).map@),
            ),
            forall|i: int| 0 <= i < points@.len() ==> (#[trigger] points@[i]).vals.wf(),
            forall|i: int| 0 <= i < points@.len() ==> (#[trigger] points@[i]).key.wf(),
    {
        let ghost base0 = pv_map(self.size);
        let ghost bs = buckets_model(self.map@);
        let mut points: Vec<Point> = Vec::new();
        let mut rest: Vec<(Date, PointVal<(u64, u64)>)> = Vec::new();
        core::mem::swap(&mut self.map, &mut rest);
        let ghost prev = rest@;
        let ghost ts = self.timestamp;
        let ghost lts = self.last_time_stamp;
        proof {
            assert(bs.skip(0) =~= bs);
            assert(points_model(points@) =~= Seq::<(Date, Map<LineUid, u64>)>::empty());
            assert(points_model(points@) + flush_points(base0, bs) =~= flush_points(base0, bs));
        }
        let n = rest.len();
        let mut i: usize = 0;
        while i < n
            invariant
                n == prev.len(),
                i <= prev.len(),
                rest@ == prev.skip(i as int),
                self.map@.len() == 0,
                self.timestamp == ts,
                self.last_time_stamp == lts,
                self.size.wf(),
                bs == buckets_model(prev),
                forall|q: int| 0 <= q < prev.len() ==> (#[trigger] prev[q]).1.wf(),
                forall|q: int| 0 <= q < prev.len() ==> (#[trigger] prev[q]).0.wf(),
                points@.len() == i,
                flush_points(base0, bs) == points_model(points@) + flush_points(
                    pv_map(self.size),
                    bs.skip(i as int),
                ),
                flush_base(base0, bs) == flush_base(pv_map(self.size), bs.skip(i as int)),
                forall|q: int| 0 <= q < i ==> (#[trigger] points@[q]).key == prev[q].0,
                forall|q: int| 0 <= q < i ==> (#[trigger] points@[q]).vals.wf(),
            decreases prev.len() - i,
        {
            let (date, pv) = rest.remove(0);
            proof {
                assert((date, pv) == prev[i as int]);
                assert(rest@ =~= prev.skip(i as int + 1));
                assert(bs.skip(i as int)[0] == (date, pv_map(pv)));
            }
            let new_size = PointVal::advance(&pv, &self.size);
            let ghost mid = pv_map(self.size);
            let point = Point { key: date, vals: new_size.duplicate() };
            self.size = new_size;
            proof {
                assert(pv_map(self.size) =~= adv_map(mid, pv_map(pv)));
                assert(pv_map(point.vals) =~= pv_map(self.size));
                assert(bs.skip(i as int).drop_first() =~= bs.skip(i as int + 1));
                assert(points_model(points@.push(point)) =~= points_model(points@) + seq![
                    (point.key, pv_map(point.vals)),
                ]);
                assert(flush_points(mid, bs.skip(i as int)) == seq![(date, pv_map(self.size))]
                    + flush_points(pv_map(self.size), bs.skip(i as int + 1)));
                assert(points_model(points@) + flush_points(mid, bs.skip(i as int)) =~= (
                points_model(points@) + seq![(point.key, pv_map(point.vals))]) + flush_points(
                    pv_map(self.size),
                    bs.skip(i as int + 1),
                ));
            }
            points.push(point);
            i += 1;
        }
        proof {
            assert(bs.skip(n as int) =~= Seq::empty());
            assert(flush_points(base0, bs) =~= points_model(points@));
        }
        if points.len() == 1 {
            let before_key = points[0].key.sub_one_nano();
            let after_key = points[0].key.add_one_nano();
            let before = Point { key: before_key, vals: points[0].vals.zeroed() };
            let after = Point { key: after_key, vals: points[0].vals.duplicate() };
            let ghost mids = points@;
            points.insert(0, before);
            points.push(after);
            proof {
                assert(pv_map(before.vals) =~= zero_of(pv_map(mids[0].vals)));
                assert(pv_map(after.vals) =~= pv_map(mids[0].vals));
                assert(points_model(points@) =~= seq![
                    (before.key, pv_map(before.vals)),
                    (mids[0].key, pv_map(mids[0].vals)),
                    (after.key, pv_map(after.vals)),
                ]);
            }
        }
        points
    }
}

/// A batch of death notifications sharing one time of death.
#[derive(Debug)]
pub struct DeathGroup {
    /// The shared time of death.
    pub tod: SinceStart,
    /// The identifiers of the dead objects; an empty batch is skipped.
    pub uids: Vec<u64>,
}

/// A snapshot of what the event source supplies for one pull: the stream's
/// start and current times, the birth events and death notifications since
/// the cursor, and the object store that resolves dead identifiers.
#[derive(Debug)]
pub struct SourceBatch {
    /// The absolute date the stream started at.
    pub start_time: Date,
    /// The current stream time.
    pub current_time: SinceStart,
    /// The objects born since the cursor, as the source iterates them:
    /// newest first, so that the coalescing cursor only moves backwards in
    /// time within one pull.
    pub births: Vec<Alloc>,
    /// The death notifications since the cursor, as the source iterates
    /// them: newest first.
    pub deaths: Vec<DeathGroup>,
    /// The object store, resolving a dead identifier to its object.
    pub store: Vec<Alloc>,
}

/// Well-formed pending buckets: dates strictly ascending and well-formed,
/// value maps with unique keys.
pub open spec fn pending_wf(m: Seq<(Date, PointVal<(u64, u64)>)>) -> bool {
    &&& forall|i: int, j: int|
        0 <= i < j < m.len() ==> (#[trigger] m[i]).0.spec_lt((#[trigger] m[j]).0)
    &&& forall|i: int| 0 <= i < m.len() ==> (#[trigger] m[i]).0.wf()
    &&& forall|i: int| 0 <= i < m.len() ==> (#[trigger] m[i]).1.wf()
}

/// Every pending bucket knows every line of the registry.
pub open spec fn pending_complete(m: Seq<(Date, PointVal<(u64, u64)>)>, filters: Filters) -> bool {
    forall|i: int, k: LineUid|
        0 <= i < m.len() && filters.spec_line_uids().contains(k) ==> #[trigger] m[i].1.contains(k)
}

/// The minimum real-time gap enforced between two bucket-opening times:
/// the current stream time divided by the number of two-hundred-pixel spans
/// the display width holds.
pub open spec fn min_spacing(current: SinceStart, width: u32) -> u64 {
    current.nanos / ((width / 200) as u64)
}

/// The coalescing rule: while the gap from the coalescing cursor back to the
/// event time stays under the minimum spacing, the event reuses the cursor's
/// time; otherwise the event's own time opens a bucket and becomes the new
/// cursor.
pub open spec fn coalesce(cc: Option<SinceStart>, t: SinceStart, spacing: u64) -> SinceStart {
    match cc {
        Some(c) => if sat_sub_u64(c.nanos, t.nanos) < spacing {
            c
        } else {
            t
        },
        None => t,
    }
}

/// The line an object belongs to: the first filter that matches it, or the
/// catch-all line.
pub open spec fn resolve_line(filters: Filters, a: Alloc) -> LineUid {
    match first_match(filters.filters@, a, 0) {
        Some(uid) => LineUid::Filter(uid),
        None => LineUid::CatchAll,
    }
}

/// A fresh bucket: a zero delta for every line of the registry.
pub open spec fn init_bucket(filters: Filters) -> Map<LineUid, (u64, u64)> {
    Map::new(|k: LineUid| filters.spec_line_uids().contains(k), |k: LineUid| (0u64, 0u64))
}

/// A line's delta in a bucket, zero when the line is unknown.
pub open spec fn delta_get_or(b: Map<LineUid, (u64, u64)>, k: LineUid) -> (u64, u64) {
    if b.dom().contains(k) {
        b[k]
    } else {
        (0u64, 0u64)
    }
}

/// A bucket with a size added to the *added* half of a line's delta.
pub open spec fn add_birth_delta(b: Map<LineUid, (u64, u64)>, k: LineUid, s: u64) -> Map<
    LineUid,
    (u64, u64),
> {
    b.insert(k, (sat_add_u64(delta_get_or(b, k).0, s), delta_get_or(b, k).1))
}

/// A bucket with a size added to the *removed* half of a line's delta.
pub open spec fn add_death_delta(b: Map<LineUid, (u64, u64)>, k: LineUid, s: u64) -> Map<
    LineUid,
    (u64, u64),
> {
    b.insert(k, (delta_get_or(b, k).0, sat_add_u64(delta_get_or(b, k).1, s)))
}

/// The pending buckets with one bucket replaced or inserted, the date order
/// kept.
pub open spec fn seq_put(
    m: Seq<(Date, Map<LineUid, (u64, u64)>)>,
    d: Date,
    b: Map<LineUid, (u64, u64)>,
) -> Seq<(Date, Map<LineUid, (u64, u64)>)>
    decreases m.len(),
{
    if m.len() == 0 {
        seq![(d, b)]
    } else if m[0].0 == d {
        m.update(0, (d, b))
    } else if d.spec_lt(m[0].0) {
        seq![(d, b)] + m
    } else {
        seq![m[0]] + seq_put(m.drop_first(), d, b)
    }
}

/// The bucket a date denotes, or a fresh bucket when the date is new.
pub open spec fn bucket_at(
    m: Seq<(Date, Map<LineUid, (u64, u64)>)>,
    d: Date,
    filters: Filters,
) -> Map<LineUid, (u64, u64)> {
    match crate::point::seq_get(m, d) {
        Some(b) => b,
        None => init_bucket(filters),
    }
}

/// One birth event: its line and the `Everything` line gain its size in the
/// bucket its coalesced time denotes, and the coalescing cursor moves to
/// that time.
pub open spec fn birth_step(
    m: Seq<(Date, Map<LineUid, (u64, u64)>)>,
    cc: Option<SinceStart>,
    a: Alloc,
    filters: Filters,
    spacing: u64,
    start: Date,
) -> (Seq<(Date, Map<LineUid, (u64, u64)>)>, Option<SinceStart>) {
    let line = resolve_line(filters, a);
    let bt = coalesce(cc, a.toc, spacing);
    let date = start.spec_add(bt);
    let b = add_birth_delta(add_birth_delta(bucket_at(m, date, filters), line, a.size), LineUid::Everything, a.size);
    (seq_put(m, date, b), Some(bt))
}

/// All birth events, in the source's order.
pub open spec fn births_fold(
    m: Seq<(Date, Map<LineUid, (u64, u64)>)>,
    cc: Option<SinceStart>,
    births: Seq<Alloc>,
    filters: Filters,
    spacing: u64,
    start: Date,
) -> (Seq<(Date, Map<LineUid, (u64, u64)>)>, Option<SinceStart>)
    decreases births.len(),
{
    if births.len() == 0 {
        (m, cc)
    } else {
        let stepped = birth_step(m, cc, births[0], filters, spacing, start);
        births_fold(stepped.0, stepped.1, births.drop_first(), filters, spacing, start)
    }
}

/// One dead identifier: resolved through the store, its object's line and
/// the `Everything` line gain its size on the removed side of the group's
/// bucket; an identifier the store cannot resolve stops the pull.
pub open spec fn death_uid_step(
    m: Seq<(Date, Map<LineUid, (u64, u64)>)>,
    date: Date,
    uid: u64,
    store: Seq<Alloc>,
    filters: Filters,
) -> Result<Seq<(Date, Map<LineUid, (u64, u64)>)>, u64> {
    match crate::allocs::store_get(store, uid) {
        None => Err(uid),
        Some(a) => {
            let line = resolve_line(filters, a);
            let b = add_death_delta(
                add_death_delta(bucket_at(m, date, filters), line, a.size),
                LineUid::Everything,
                a.size,
            );
            Ok(seq_put(m, date, b))
        },
    }
}

/// The identifiers of one death batch, in order; on an unresolved
/// identifier the buckets filled so far persist.
pub open spec fn group_uids_fold(
    m: Seq<(Date, Map<LineUid, (u64, u64)>)>,
    date: Date,
    uids: Seq<u64>,
    store: Seq<Alloc>,
    filters: Filters,
) -> Result<Seq<(Date, Map<LineUid, (u64, u64)>)>, (Seq<(Date, Map<LineUid, (u64, u64)>)>, u64)>
    decreases uids.len(),
{
    if uids.len() == 0 {
        Ok(m)
    } else {
        match death_uid_step(m, date, uids[0], store, filters) {
            Err(u) => Err((m, u)),
            Ok(m1) => group_uids_fold(m1, date, uids.drop_first(), store, filters),
        }
    }
}

/// One death batch: an empty batch is skipped; otherwise the shared time of
/// death is coalesced once for the whole batch, and every identifier lands
/// in that bucket.
pub open spec fn group_step(
    m: Seq<(Date, Map<LineUid, (u64, u64)>)>,
    cc: Option<SinceStart>,
    g: DeathGroup,
    store: Seq<Alloc>,
    filters: Filters,
    spacing: u64,
    start: Date,
) -> Result<
    (Seq<(Date, Map<LineUid, (u64, u64)>)>, Option<SinceStart>),
    (Seq<(Date, Map<LineUid, (u64, u64)>)>, Option<SinceStart>, u64),
> {
    if g.uids@.len() == 0 {
        Ok((m, cc))
    } else {
        let dt = coalesce(cc, g.tod, spacing);
        let date = start.spec_add(dt);
        match group_uids_fold(m, date, g.uids@, store, filters) {
            Ok(m1) => Ok((m1, Some(dt))),
            Err((m1, u)) => Err((m1, Some(dt), u)),
        }
    }
}

/// All death batches, in the source's order.
pub open spec fn deaths_fold(
    m: Seq<(Date, Map<LineUid, (u64, u64)>)>,
    cc: Option<SinceStart>,
    groups: Seq<DeathGroup>,
    store: Seq<Alloc>,
    filters: Filters,
    spacing: u64,
    start: Date,
) -> Result<
    (Seq<(Date, Map<LineUid, (u64, u64)>)>, Option<SinceStart>),
    (Seq<(Date, Map<LineUid, (u64, u64)>)>, Option<SinceStart>, u64),
>
    decreases groups.len(),
{
    if groups.len() == 0 {
        Ok((m, cc))
    } else {
        match group_step(m, cc, groups[0], store, filters, spacing, start) {
            Ok((m1, cc1)) => deaths_fold(m1, cc1, groups.drop_first(), store, filters, spacing, start),
            Err(e) => Err(e),
        }
    }
}

/// Whether the batch carries any event at all.
pub open spec fn any_event(births: Seq<Alloc>, groups: Seq<DeathGroup>) -> bool {
    births.len() > 0 || exists|i: int| 0 <= i < groups.len() && (#[trigger] groups[i]).uids@.len() > 0
}

/// What one pull does to the pending buckets and the coalescing cursor: an
/// initial pull first anchors a zero bucket at the stream origin; the birth
/// events come first, then the death batches, each phase starting its
/// coalescing from the current stream time; an unresolved dead identifier
/// stops the pull, keeping what was filled.
pub open spec fn ingest_result(
    m0: Seq<(Date, Map<LineUid, (u64, u64)>)>,
    init: bool,
    filters: Filters,
    spacing: u64,
    start: Date,
    current: SinceStart,
    births: Seq<Alloc>,
    groups: Seq<DeathGroup>,
    store: Seq<Alloc>,
) -> Result<
    (Seq<(Date, Map<LineUid, (u64, u64)>)>, Option<SinceStart>),
    (Seq<(Date, Map<LineUid, (u64, u64)>)>, Option<SinceStart>, u64),
> {
    let d0 = start.spec_add(SinceStart { nanos: 0 });
    let m1 = if init {
        seq_put(m0, d0, bucket_at(m0, d0, filters))
    } else {
        m0
    };
    let after_births = births_fold(m1, Some(current), births, filters, spacing, start);
    deaths_fold(after_births.0, Some(current), groups, store, filters, spacing, start)
}

/// Strictly ascending bucket dates, at the model level.
pub open spec fn sorted_model(m: Seq<(Date, Map<LineUid, (u64, u64)>)>) -> bool {
    forall|i: int, j: int| 0 <= i < j < m.len() ==> (#[trigger] m[i]).0.spec_lt((#[trigger] m[j]).0)
}

/// Putting a bucket at the first position not before its date replaces the
/// bucket there when the dates agree, and inserts it there otherwise.
pub proof fn lemma_seq_put_at(
    m: Seq<(Date, Map<LineUid, (u64, u64)>)>,
    d: Date,
    b: Map<LineUid, (u64, u64)>,
    idx: int,
)
    requires
        sorted_model(m),
        0 <= idx <= m.len(),
        forall|q: int| 0 <= q < idx ==> (#[trigger] m[q]).0.spec_lt(d),
        idx < m.len() ==> !m[idx].0.spec_lt(d),
    ensures
        idx < m.len() && m[idx].0 == d ==> seq_put(m, d, b) == m.update(idx, (d, b)),
        !(idx < m.len() && m[idx].0 == d) ==> seq_put(m, d, b) == m.insert(idx, (d, b)),
    decreases m.len(),
{
    if m.len() == 0 {
        assert(seq_put(m, d, b) =~= m.insert(0, (d, b)));
    } else if m[0].0 == d {
        assert(idx == 0) by {
            if idx > 0 {
                assert(m[0].0.spec_lt(d));
            }
        }
        assert(seq_put(m, d, b) =~= m.update(0, (d, b)));
    } else if d.spec_lt(m[0].0) {
        assert(idx == 0) by {
            if idx > 0 {
                assert(m[0].0.spec_lt(d));
            }
        }
        assert(seq_put(m, d, b) =~= m.insert(0, (d, b)));
    } else {
        assert(m[0].0.spec_lt(d));
        assert(idx > 0) by {
            if idx == 0 {
                assert(!m[0].0.spec_lt(d));
            }
        }
        let rest = m.drop_first();
        assert forall|i: int, j: int|
            0 <= i < j < rest.len() implies (#[trigger] rest[i]).0.spec_lt(
            (#[trigger] rest[j]).0,
        ) by {
            assert(rest[i] == m[i + 1] && rest[j] == m[j + 1]);
        }
        assert forall|q: int| 0 <= q < idx - 1 implies (#[trigger] rest[q]).0.spec_lt(d) by {
            assert(rest[q] == m[q + 1]);
        }
        if idx - 1 < rest.len() {
            assert(rest[idx - 1] == m[idx]);
        }
        lemma_seq_put_at(rest, d, b, idx - 1);
        if idx < m.len() && m[idx].0 == d {
            assert(seq_put(m, d, b) =~= m.update(idx, (d, b)));
        } else {
            assert(seq_put(m, d, b) =~= m.insert(idx, (d, b)));
        }
    }
}

/// Putting twice at one date keeps the last bucket.
pub proof fn lemma_seq_put_twice(
    m: Seq<(Date, Map<LineUid, (u64, u64)>)>,
    d: Date,
    x: Map<LineUid, (u64, u64)>,
    y: Map<LineUid, (u64, u64)>,
)
    ensures
        seq_put(seq_put(m, d, x), d, y) == seq_put(m, d, y),
    decreases m.len(),
{
    if m.len() == 0 {
        assert(seq_put(seq_put(m, d, x), d, y) =~= seq_put(m, d, y));
    } else if m[0].0 == d {
        assert(seq_put(m, d, x)[0].0 == d);
        assert(seq_put(seq_put(m, d, x), d, y) =~= seq_put(m, d, y));
    } else if d.spec_lt(m[0].0) {
        assert(seq_put(m, d, x)[0].0 == d);
        assert(seq_put(seq_put(m, d, x), d, y) =~= seq_put(m, d, y));
    } else {
        lemma_seq_put_twice(m.drop_first(), d, x, y);
        assert(seq_put(m, d, x)[0] == m[0]);
        assert(seq_put(m, d, x).drop_first() =~= seq_put(m.drop_first(), d, x));
        assert(seq_put(seq_put(m, d, x), d, y) =~= seq![m[0]] + seq_put(
            seq_put(m.drop_first(), d, x),
            d,
            y,
        ));
        assert(seq_put(seq_put(m, d, x), d, y) =~= seq_put(m, d, y));
    }
}

/// The bucket date positions agree between the pending buckets and their
/// models.
pub proof fn lemma_bm_key_index(m: Seq<(Date, PointVal<(u64, u64)>)>, d: Date)
    ensures
        key_index(buckets_model(m), d) == key_index(m, d),
    decreases m.len(),
{
    if m.len() > 0 {
        assert(buckets_model(m)[0].0 == m[0].0);
        if m[0].0 != d {
            assert(buckets_model(m).drop_first() =~= buckets_model(m.drop_first()));
            lemma_bm_key_index(m.drop_first(), d);
        }
    }
}

/// Replaces or creates the bucket of a date, adding a size to one line's
/// delta: on the added side for a birth, on the removed side for a death.
fn pending_add(
    map: &mut Vec<(Date, PointVal<(u64, u64)>)>,
    date: Date,
    line: LineUid,
    size: u64,
    is_birth: bool,
    filters: &Filters,
)
    requires
        pending_wf(old(map)@),
        pending_complete(old(map)@, *filters),
        filters.wf(),
        date.wf(),
        is_birth || filters.spec_line_uids().contains(line),
    ensures
        pending_wf(final(map)@),
        pending_complete(final(map)@, *filters),
        buckets_model(final(map)@) == seq_put(
            buckets_model(old(map)@),
            date,
            if is_birth {
                add_birth_delta(bucket_at(buckets_model(old(map)@), date, *filters), line, size)
            } else {
                add_death_delta(bucket_at(buckets_model(old(map)@), date, *filters), line, size)
            },
        ),
{
    let ghost bm0 = buckets_model(map@);
    let mut idx: usize = 0;
    while idx < map.len() && map[idx].0.lt(&date)
        invariant
            pending_wf(map@),
            *map == *old(map),
            idx <= map@.len(),
            forall|q: int| 0 <= q < idx ==> (#[trigger] map@[q]).0.spec_lt(date),
        decreases map@.len() - idx,
    {
        idx += 1;
    }
    proof {
        assert forall|i: int, j: int|
            0 <= i < j < bm0.len() implies (#[trigger] bm0[i]).0.spec_lt(
            (#[trigger] bm0[j]).0,
        ) by {
            assert(bm0[i].0 == map@[i].0 && bm0[j].0 == map@[j].0);
        }
        assert forall|q: int| 0 <= q < idx implies (#[trigger] bm0[q]).0.spec_lt(date) by {
            assert(bm0[q].0 == map@[q].0);
        }
        if (idx as int) < bm0.len() {
            assert(bm0[idx as int].0 == map@[idx as int].0);
        }
        lemma_seq_put_at(bm0, date, if is_birth {
            add_birth_delta(bucket_at(bm0, date, *filters), line, size)
        } else {
            add_death_delta(bucket_at(bm0, date, *filters), line, size)
        }, idx as int);
        lemma_bm_key_index(old(map)@, date);
        lemma_key_index(bm0, date);
        lemma_key_index(map@, date);
    }
    let ghost target = if is_birth {
        add_birth_delta(bucket_at(bm0, date, *filters), line, size)
    } else {
        add_death_delta(bucket_at(bm0, date, *filters), line, size)
    };
    if idx == map.len() || !date_eq(&map[idx].0, &date) {
        proof {
            assert(key_index(map@, date) == -1) by {
                lemma_key_index(map@, date);
                if key_index(map@, date) != -1 {
                    let q = key_index(map@, date);
                    assert(map@[q].0 == date);
                    if q < idx {
                        assert(map@[q].0.spec_lt(date));
                    } else if q > idx && idx < map@.len() {
                        assert(map@[idx as int].0.spec_lt(map@[q].0));
                        assert(!map@[idx as int].0.spec_lt(date));
                    }
                }
            }
            assert(key_index(bm0, date) == -1);
            assert(bucket_at(bm0, date, *filters) == init_bucket(*filters));
        }
        // A fresh bucket: every line of the registry, at a zero delta.
        let mut pv: PointVal<(u64, u64)> = PointVal::new((0, 0), filters);
        proof {
            assert(pv_map(pv) =~= init_bucket(*filters));
            assert forall|k: LineUid|
                filters.spec_line_uids().contains(k) implies pv.contains(k) by {}
        }
        if is_birth {
            pv.add_birth(line, size);
        } else {
            let r = pv.add_death(line, size);
            proof {
                assert(r is Ok);
            }
        }
        proof {
            assert(pv_map(pv) =~= target);
        }
        map.insert(idx, (date, pv));
        proof {
            assert(buckets_model(map@) =~= bm0.insert(idx as int, (date, pv_map(pv))));
            assert(buckets_model(map@) == seq_put(bm0, date, target));
            assert forall|i: int, j: int|
                0 <= i < j < map@.len() implies (#[trigger] map@[i]).0.spec_lt(
                (#[trigger] map@[j]).0,
            ) by {
                lemma_sorted_after_insert(old(map)@, idx as int, date, i, j);
            }
            assert forall|i: int| 0 <= i < map@.len() implies (#[trigger] map@[i]).0.wf() by {
                if i != idx {
                    let q = if i < idx {
                        i
                    } else {
                        i - 1
                    };
                    assert(map@[i] == old(map)@[q]);
                }
            }
            assert forall|i: int| 0 <= i < map@.len() implies (#[trigger] map@[i]).1.wf() by {
                if i != idx {
                    let q = if i < idx {
                        i
                    } else {
                        i - 1
                    };
                    assert(map@[i] == old(map)@[q]);
                }
            }
            assert forall|i: int, k: LineUid|
                0 <= i < map@.len() && filters.spec_line_uids().contains(k) implies #[trigger] map@[i].1.contains(
                k,
            ) by {
                if i != idx {
                    let q = if i < idx {
                        i
                    } else {
                        i - 1
                    };
                    assert(map@[i] == old(map)@[q]);
                    assert(old(map)@[q].1.contains(k));
                }
            }
        }
    } else {
        proof {
            assert(map@[idx as int].0 == date);
            assert forall|q: int| 0 <= q < idx implies (#[trigger] map@[q]).0 != date by {
                assert(map@[q].0.spec_lt(date));
            }
            lemma_key_index_first(map@, date, idx as int);
            assert(key_index(bm0, date) == idx as int);
            assert(bucket_at(bm0, date, *filters) == pv_map(map@[idx as int].1));
        }
        let (d, mut pv) = map.remove(idx);
        let ghost pv0 = pv;
        proof {
            assert((d, pv0) == old(map)@[idx as int]);
            assert forall|k: LineUid| filters.spec_line_uids().contains(k) implies pv.contains(
                k,
            ) by {}
        }
        if is_birth {
            pv.add_birth(line, size);
        } else {
            let r = pv.add_death(line, size);
            proof {
                assert(r is Ok);
            }
        }
        proof {
            assert(pv_map(pv) =~= target);
        }
        map.insert(idx, (d, pv));
        proof {
            assert(map@ =~= old(map)@.update(idx as int, (date, pv)));
            assert(buckets_model(map@) =~= bm0.update(idx as int, (date, pv_map(pv))));
            assert(buckets_model(map@) == seq_put(bm0, date, target));
            assert forall|i: int, j: int|
                0 <= i < j < map@.len() implies (#[trigger] map@[i]).0.spec_lt(
                (#[trigger] map@[j]).0,
            ) by {
                assert(map@[i].0 == old(map)@[i].0 && map@[j].0 == old(map)@[j].0);
            }
            assert forall|i: int| 0 <= i < map@.len() implies (#[trigger] map@[i]).0.wf()
                && map@[i].1.wf() by {
                if i != idx {
                    assert(map@[i] == old(map)@[i]);
                }
            }
            assert forall|i: int, k: LineUid|
                0 <= i < map@.len() && filters.spec_line_uids().contains(k) implies #[trigger] map@[i].1.contains(
                k,
            ) by {
                if i != idx {
                    assert(map@[i] == old(map)@[i]);
                    assert(old(map)@[i].1.contains(k));
                } else {
                    assert(pv0.contains(k));
                }
            }
        }
    }
}

/// Strict ascent is kept when a date is inserted at the first position not
/// before it.
pub proof fn lemma_sorted_after_insert(
    m: Seq<(Date, PointVal<(u64, u64)>)>,
    idx: int,
    date: Date,
    i: int,
    j: int,
)
    requires
        pending_wf(m),
        0 <= idx <= m.len(),
        forall|q: int| 0 <= q < idx ==> (#[trigger] m[q]).0.spec_lt(date),
        idx < m.len() ==> !m[idx].0.spec_lt(date) && m[idx].0 != date,
        date.wf(),
        0 <= i < j < m.len() + 1,
    ensures
        forall|pv: PointVal<(u64, u64)>|
            (#[trigger] m.insert(idx, (date, pv)))[i].0.spec_lt(m.insert(idx, (date, pv))[j].0),
{
    assert forall|pv: PointVal<(u64, u64)>|
        (#[trigger] m.insert(idx, (date, pv)))[i].0.spec_lt(
        m.insert(idx, (date, pv))[j].0,
    ) by {
        let t = m.insert(idx, (date, pv));
        if idx < m.len() {
            assert(date.spec_lt(m[idx].0));
        }
        if i == idx {
            assert(t[j] == m[j - 1]);
            if j - 1 > idx {
                assert(m[idx].0.spec_lt(m[j - 1].0));
            }
        } else if j == idx {
            assert(t[i] == m[i]);
        } else {
            let qq = if i < idx {
                i
            } else {
                i - 1
            };
            let ww = if j < idx {
                j
            } else {
                j - 1
            };
            assert(t[i] == m[qq] && t[j] == m[ww]);
            if qq < ww {
                assert(m[qq].0.spec_lt(m[ww].0));
            }
        }
    }
}

/// A date equality test.
fn date_eq(a: &Date, b: &Date) -> (r: bool)
    ensures
        r == (*a == *b),
{
    a.secs == b.secs && a.nanos == b.nanos
}

/// Well-formed pending buckets have a sorted, uniquely keyed model.
pub proof fn lemma_model_sorted(m: Seq<(Date, PointVal<(u64, u64)>)>)
    requires
        pending_wf(m),
    ensures
        sorted_model(buckets_model(m)),
        crate::point::keys_unique(buckets_model(m)),
{
    let bm = buckets_model(m);
    assert forall|i: int, j: int|
        0 <= i < j < bm.len() implies (#[trigger] bm[i]).0.spec_lt((#[trigger] bm[j]).0) by {
        assert(bm[i].0 == m[i].0 && bm[j].0 == m[j].0);
    }
    assert forall|i: int, j: int|
        0 <= i < j < bm.len() implies (#[trigger] bm[i]).0 != (#[trigger] bm[j]).0 by {
        assert(bm[i].0.spec_lt(bm[j].0));
    }
}

/// What putting a bucket does: the bucket stands at its date, every other
/// date is untouched, the order stays sorted, and every date of the result
/// is the put date or one of the original dates.
pub proof fn lemma_seq_put_get(
    m: Seq<(Date, Map<LineUid, (u64, u64)>)>,
    d: Date,
    b: Map<LineUid, (u64, u64)>,
    k: Date,
)
    requires
        sorted_model(m),
    ensures
        crate::point::seq_get(seq_put(m, d, b), k) == if k == d {
            Some(b)
        } else {
            crate::point::seq_get(m, k)
        },
        sorted_model(seq_put(m, d, b)),
        forall|q: int|
            0 <= q < seq_put(m, d, b).len() ==> (#[trigger] seq_put(m, d, b)[q]).0 == d || (exists|
                w: int,
            |
                0 <= w < m.len() && (#[trigger] m[w]).0 == (seq_put(m, d, b)[q]).0),
    decreases m.len(),
{
    let t = seq_put(m, d, b);
    assert forall|i: int, j: int|
        0 <= i < j < m.len() implies (#[trigger] m[i]).0 != (#[trigger] m[j]).0 by {
        assert(m[i].0.spec_lt(m[j].0));
    }
    if m.len() == 0 {
        assert(t =~= seq![(d, b)]);
        if k == d {
            assert(t[0].0 == k);
        } else {
            assert(t[0].0 != k);
            assert(t.drop_first() =~= Seq::<(Date, Map<LineUid, (u64, u64)>)>::empty());
            assert(key_index(t.drop_first(), k) == -1);
            assert(crate::point::seq_get(t, k) is None);
        }
    } else if m[0].0 == d {
        crate::point::lemma_seq_get_update(m, 0, (d, b), k);
        assert forall|i: int, j: int|
            0 <= i < j < t.len() implies (#[trigger] t[i]).0.spec_lt((#[trigger] t[j]).0) by {
            assert(m[i].0.spec_lt(m[j].0));
            assert(t[i].0 == m[i].0 && t[j].0 == m[j].0);
        }
    } else if d.spec_lt(m[0].0) {
        assert(crate::point::seq_get(m, d) is None) by {
            crate::point::lemma_key_index(m, d);
            if key_index(m, d) != -1 {
                let q = key_index(m, d);
                assert(m[q].0 == d);
                if q > 0 {
                    assert(m[0].0.spec_lt(m[q].0));
                }
            }
        }
        assert(t =~= m.insert(0, (d, b)));
        crate::point::lemma_seq_get_insert(m, 0, (d, b), k);
        assert forall|i: int, j: int|
            0 <= i < j < t.len() implies (#[trigger] t[i]).0.spec_lt((#[trigger] t[j]).0) by {
            if i == 0 {
                assert(t[j] == m[j - 1]);
                if j - 1 > 0 {
                    assert(m[0].0.spec_lt(m[j - 1].0));
                }
            } else {
                assert(t[i] == m[i - 1] && t[j] == m[j - 1]);
                assert(m[i - 1].0.spec_lt(m[j - 1].0));
            }
        }
    } else {
        let rest = m.drop_first();
        assert forall|i: int, j: int|
            0 <= i < j < rest.len() implies (#[trigger] rest[i]).0.spec_lt(
            (#[trigger] rest[j]).0,
        ) by {
            assert(rest[i] == m[i + 1] && rest[j] == m[j + 1]);
        }
        lemma_seq_put_get(rest, d, b, k);
        let tt = seq_put(rest, d, b);
        assert(t =~= seq![m[0]] + tt);
        assert(t[0] == m[0]);
        assert(t.drop_first() =~= tt);
        // the value read at `k`
        if t[0].0 == k {
            assert(m[0].0 == k);
            assert(k != d);
            assert(crate::point::seq_get(t, k) == Some(t[0].1));
            assert(crate::point::seq_get(m, k) == Some(m[0].1));
        } else {
            if key_index(tt, k) != -1 {
                crate::point::lemma_key_index(tt, k);
                assert(t[key_index(tt, k) + 1] == tt[key_index(tt, k)]);
            }
            assert(crate::point::seq_get(t, k) == crate::point::seq_get(tt, k));
            if k != d {
                if key_index(rest, k) != -1 {
                    crate::point::lemma_key_index(rest, k);
                    assert(m[key_index(rest, k) + 1] == rest[key_index(rest, k)]);
                }
                assert(crate::point::seq_get(m, k) == crate::point::seq_get(rest, k));
            }
        }
        // sortedness
        assert(!d.spec_lt(m[0].0) && m[0].0 != d);
        assert(m[0].0.spec_lt(d));
        assert forall|i: int, j: int|
            0 <= i < j < t.len() implies (#[trigger] t[i]).0.spec_lt((#[trigger] t[j]).0) by {
            if i == 0 {
                assert(t[j] == tt[j - 1]);
                assert(tt[j - 1].0 == d || (exists|w: int|
                    0 <= w < rest.len() && (#[trigger] rest[w]).0 == tt[j - 1].0));
                if tt[j - 1].0 != d {
                    let w = choose|w: int| 0 <= w < rest.len() && (#[trigger] rest[w]).0 == tt[j
                        - 1].0;
                    assert(rest[w] == m[w + 1]);
                    assert(m[0].0.spec_lt(m[w + 1].0));
                }
            } else {
                assert(t[i] == tt[i - 1] && t[j] == tt[j - 1]);
            }
        }
        // date origins
        assert forall|q: int|
            0 <= q < t.len() implies (#[trigger] t[q]).0 == d || (exists|w: int|
            0 <= w < m.len() && (#[trigger] m[w]).0 == (t[q]).0) by {
            if q == 0 {
                assert(m[0].0 == t[0].0);
            } else {
                assert(t[q] == tt[q - 1]);
                if tt[q - 1].0 != d {
                    let w = choose|w: int| 0 <= w < rest.len() && (#[trigger] rest[w]).0 == tt[q
                        - 1].0;
                    assert(rest[w] == m[w + 1]);
                }
            }
        }
    }
    assert(crate::point::seq_get(t, k) =~~= if k == d {
        Some(b)
    } else {
        crate::point::seq_get(m, k)
    });

}

/// Creates the bucket of a date if it does not exist yet, with a zero delta
/// for every line of the registry.
fn pending_touch(map: &mut Vec<(Date, PointVal<(u64, u64)>)>, date: Date, filters: &Filters)
    requires
        pending_wf(old(map)@),
        pending_complete(old(map)@, *filters),
        filters.wf(),
        date.wf(),
    ensures
        pending_wf(final(map)@),
        pending_complete(final(map)@, *filters),
        buckets_model(final(map)@) == seq_put(
            buckets_model(old(map)@),
            date,
            bucket_at(buckets_model(old(map)@), date, *filters),
        ),
{
    let ghost bm0 = buckets_model(map@);
    let mut idx: usize = 0;
    while idx < map.len() && map[idx].0.lt(&date)
        invariant
            pending_wf(map@),
            *map == *old(map),
            idx <= map@.len(),
            forall|q: int| 0 <= q < idx ==> (#[trigger] map@[q]).0.spec_lt(date),
        decreases map@.len() - idx,
    {
        idx += 1;
    }
    proof {
        assert forall|i: int, j: int|
            0 <= i < j < bm0.len() implies (#[trigger] bm0[i]).0.spec_lt(
            (#[trigger] bm0[j]).0,
        ) by {
            assert(bm0[i].0 == map@[i].0 && bm0[j].0 == map@[j].0);
        }
        assert forall|q: int| 0 <= q < idx implies (#[trigger] bm0[q]).0.spec_lt(date) by {
            assert(bm0[q].0 == map@[q].0);
        }
        if (idx as int) < bm0.len() {
            assert(bm0[idx as int].0 == map@[idx as int].0);
        }
        lemma_seq_put_at(bm0, date, bucket_at(bm0, date, *filters), idx as int);
        lemma_bm_key_index(old(map)@, date);
        lemma_key_index(bm0, date);
        lemma_key_index(map@, date);
    }
    if idx == map.len() || !date_eq(&map[idx].0, &date) {
        proof {
            assert(key_index(map@, date) == -1) by {
                lemma_key_index(map@, date);
                if key_index(map@, date) != -1 {
                    let q = key_index(map@, date);
                    assert(map@[q].0 == date);
                    if q < idx {
                        assert(map@[q].0.spec_lt(date));
                    } else if q > idx && idx < map@.len() {
                        assert(map@[idx as int].0.spec_lt(map@[q].0));
                        assert(!map@[idx as int].0.spec_lt(date));
                    }
                }
            }
            assert(key_index(bm0, date) == -1);
            assert(bucket_at(bm0, date, *filters) == init_bucket(*filters));
        }
        let pv: PointVal<(u64, u64)> = PointVal::new((0, 0), filters);
        proof {
            assert(pv_map(pv) =~= init_bucket(*filters));
        }
        map.insert(idx, (date, pv));
        proof {
            assert(buckets_model(map@) =~= bm0.insert(idx as int, (date, pv_map(pv))));
            assert(buckets_model(map@) == seq_put(bm0, date, bucket_at(bm0, date, *filters)));
            assert forall|i: int, j: int|
                0 <= i < j < map@.len() implies (#[trigger] map@[i]).0.spec_lt(
                (#[trigger] map@[j]).0,
            ) by {
                lemma_sorted_after_insert(old(map)@, idx as int, date, i, j);
            }
            assert forall|i: int| 0 <= i < map@.len() implies (#[trigger] map@[i]).0.wf()
                && map@[i].1.wf() by {
                if i != idx {
                    let q = if i < idx {
                        i
                    } else {
                        i - 1
                    };
                    assert(map@[i] == old(map)@[q]);
                }
            }
            assert forall|i: int, k: LineUid|
                0 <= i < map@.len() && filters.spec_line_uids().contains(k) implies #[trigger] map@[i].1.contains(
                k,
            ) by {
                if i != idx {
                    let q = if i < idx {
                        i
                    } else {
                        i - 1
                    };
                    assert(map@[i] == old(map)@[q]);
                    assert(old(map)@[q].1.contains(k));
                }
            }
        }
    } else {
        proof {
            assert(map@[idx as int].0 == date);
            assert forall|q: int| 0 <= q < idx implies (#[trigger] map@[q]).0 != date by {
                assert(map@[q].0.spec_lt(date));
            }
            lemma_key_index_first(map@, date, idx as int);
            assert(key_index(bm0, date) == idx as int);
            assert(bucket_at(bm0, date, *filters) == pv_map(map@[idx as int].1));
            assert(buckets_model(map@) =~= bm0.update(idx as int, bm0[idx as int]));
            assert(buckets_model(map@) == seq_put(bm0, date, bucket_at(bm0, date, *filters)));
        }
    }
}

/// The line a matched filter identifier denotes is a line of the registry.
pub proof fn lemma_first_match_line(filters: Filters, a: Alloc, i: int)
    requires
        first_match(filters.filters@, a, i) is Some,
        0 <= i,
    ensures
        filters.spec_line_uids().contains(
            LineUid::Filter(first_match(filters.filters@, a, i)->Some_0),
        ),
    decreases filters.filters@.len() - i,
{
    if i < filters.filters@.len() {
        if crate::filter::filter_matches(filters.filters@[i], a) {
            assert(filters.spec_line_uids()[i + 2] == LineUid::Filter(
                crate::filter::fuid(filters.filters@[i]),
            ));
        } else {
            lemma_first_match_line(filters, a, i + 1);
        }
    }
}

/// The catch-all line is a line of the registry.
pub proof fn lemma_catch_all_line(filters: Filters)
    ensures
        filters.spec_line_uids().contains(LineUid::CatchAll),
        filters.spec_line_uids().contains(LineUid::Everything),
{
    assert(filters.spec_line_uids()[1] == LineUid::CatchAll);
    assert(filters.spec_line_uids()[0] == LineUid::Everything);
}

impl TimeSize {
    /// Retrieves all events the source supplies since the cursor and
    /// coalesces them into the pending buckets.
    ///
    /// An initial pull first anchors a zero bucket at the stream origin.
    /// Birth events come first, then death batches; each phase starts its
    /// coalescing from the current stream time. When any event was
    /// processed, the cursor advances one nanosecond past the current stream
    /// time, so that the next pull strictly excludes everything just seen.
    /// A death notification whose identifier the source cannot resolve stops
    /// the pull with a consistency error: the cursor is left unadvanced and
    /// the buckets already filled persist, so a retried pull re-merges them.
    pub fn get_allocs(
        &mut self,
        filters: &Filters,
        init: bool,
        resolution: crate::chart::Resolution,
        batch: &SourceBatch,
    ) -> (r: Res<()>)
        requires
            old(self).wf(),
            filters.wf(),
            pending_complete(old(self).map@, *filters),
            resolution.width >= 200,
            batch.start_time.wf(),
        ensures
            final(self).wf(),
            pending_complete(final(self).map@, *filters),
            final(self).size == old(self).size,
            ({
                let res = ingest_result(
                    buckets_model(old(self).map@),
                    init,
                    *filters,
                    min_spacing(batch.current_time, resolution.width),
                    batch.start_time,
                    batch.current_time,
                    batch.births@,
                    batch.deaths@,
                    batch.store@,
                );
                match res {
                    Ok(mcc) => r == Res::<()>::Ok(()) && buckets_model(final(self).map@) == mcc.0
                        && final(self).last_time_stamp == mcc.1 && final(self).timestamp == (
                    if any_event(batch.births@, batch.deaths@) {
                        (SinceStart { nanos: sat_add_u64(batch.current_time.nanos, 1) })
                    } else {
                        old(self).timestamp
                    }),
                    Err(mccu) => r == Res::<()>::Err(Error::UnresolvedDead(mccu.2))
                        && buckets_model(final(self).map@) == mccu.0 && final(self).last_time_stamp
                        == mccu.1 && final(self).timestamp == old(self).timestamp,
                }
            }),
    {
        let ghost bm_orig = buckets_model(self.map@);
        let divisor = resolution.width / 200;
        let spacing = batch.current_time.nanos / (divisor as u64);
        let ghost sp = min_spacing(batch.current_time, resolution.width);
        let ghost start = batch.start_time;
        let ghost current = batch.current_time;
        let ghost f = *filters;
        proof {
            assert(spacing == sp);
        }
        if init {
            let d0 = batch.start_time.copy_add(SinceStart::zero());
            pending_touch(&mut self.map, d0, filters);
        }
        let ghost m1 = buckets_model(self.map@);
        let ghost full = ingest_result(
            bm_orig,
            init,
            f,
            sp,
            start,
            current,
            batch.births@,
            batch.deaths@,
            batch.store@,
        );
        let ghost full_births = births_fold(m1, Some(current), batch.births@, f, sp, start);
        self.last_time_stamp = Some(batch.current_time);
        let mut new_stuff = false;
        proof {
            assert(batch.births@.skip(0) =~= batch.births@);
        }
        let mut i: usize = 0;
        while i < batch.births.len()
            invariant
                self.wf(),
                pending_complete(self.map@, f),
                filters.wf(),
                *filters == f,
                self.size == old(self).size,
                self.timestamp == old(self).timestamp,
                batch.start_time == start,
                batch.current_time == current,
                start.wf(),
                spacing == sp,
                sp == min_spacing(batch.current_time, resolution.width),
                i <= batch.births@.len(),
                new_stuff == (i > 0),
                full_births == births_fold(
                    buckets_model(self.map@),
                    self.last_time_stamp,
                    batch.births@.skip(i as int),
                    f,
                    sp,
                    start,
                ),
            decreases batch.births@.len() - i,
        {
            let a = &batch.births[i];
            new_stuff = true;
            let line = match filters.find_match(batch.current_time, a) {
                Some(uid) => LineUid::Filter(uid),
                None => LineUid::CatchAll,
            };
            proof {
                assert(line == resolve_line(f, *a));
                if first_match(f.filters@, *a, 0) is Some {
                    lemma_first_match_line(f, *a, 0);
                } else {
                    lemma_catch_all_line(f);
                }
            }
            let adjusted = match &self.last_time_stamp {
                Some(l) => if l.sat_sub(&a.toc).nanos < spacing {
                    *l
                } else {
                    a.toc
                },
                None => a.toc,
            };
            let ghost cc_before = self.last_time_stamp;
            let ghost bm_before = buckets_model(self.map@);
            proof {
                assert(adjusted == coalesce(cc_before, a.toc, sp));
                lemma_model_sorted(self.map@);
            }
            self.last_time_stamp = Some(adjusted);
            let date = batch.start_time.copy_add(adjusted);
            pending_add(&mut self.map, date, line, a.size, true, filters);
            let ghost bm_mid = buckets_model(self.map@);
            pending_add(&mut self.map, date, LineUid::Everything, a.size, true, filters);
            proof {
                let b0 = bucket_at(bm_before, date, f);
                let x = add_birth_delta(b0, line, a.size);
                let y = add_birth_delta(x, LineUid::Everything, a.size);
                assert(sorted_model(bm_before));
                lemma_seq_put_get(bm_before, date, x, date);
                assert(bucket_at(bm_mid, date, f) == x);
                lemma_seq_put_twice(bm_before, date, x, y);
                assert(buckets_model(self.map@) == seq_put(bm_before, date, y));
                assert(birth_step(bm_before, cc_before, batch.births@[i as int], f, sp, start)
                    == (buckets_model(self.map@), Some(adjusted)));
                assert(batch.births@.skip(i as int)[0] == batch.births@[i as int]);
                assert(batch.births@.skip(i as int).drop_first() =~= batch.births@.skip(
                    i as int + 1,
                ));
            }
            i += 1;
        }
        proof {
            assert(batch.births@.skip(batch.births@.len() as int) =~= Seq::<Alloc>::empty());
            assert(full_births == (
                buckets_model(self.map@),
                self.last_time_stamp,
            ));
        }
        self.last_time_stamp = Some(batch.current_time);
        proof {
            assert(full == deaths_fold(
                buckets_model(self.map@),
                Some(current),
                batch.deaths@,
                batch.store@,
                f,
                sp,
                start,
            ));
            assert(batch.deaths@.skip(0) =~= batch.deaths@);
        }
        let mut g: usize = 0;
        while g < batch.deaths.len()
            invariant
                self.wf(),
                pending_complete(self.map@, f),
                filters.wf(),
                *filters == f,
                self.size == old(self).size,
                self.timestamp == old(self).timestamp,
                batch.start_time == start,
                batch.current_time == current,
                start.wf(),
                spacing == sp,
                sp == min_spacing(batch.current_time, resolution.width),
                full == ingest_result(
                    buckets_model(old(self).map@),
                    init,
                    f,
                    sp,
                    start,
                    current,
                    batch.births@,
                    batch.deaths@,
                    batch.store@,
                ),
                g <= batch.deaths@.len(),
                new_stuff == (batch.births@.len() > 0 || exists|q: int|
                    0 <= q < g && (#[trigger] batch.deaths@[q]).uids@.len() > 0),
                full == deaths_fold(
                    buckets_model(self.map@),
                    self.last_time_stamp,
                    batch.deaths@.skip(g as int),
                    batch.store@,
                    f,
                    sp,
                    start,
                ),
            decreases batch.deaths@.len() - g,
        {
            let group = &batch.deaths[g];
            let ghost grp = batch.deaths@[g as int];
            proof {
                assert(batch.deaths@.skip(g as int)[0] == grp);
                assert(batch.deaths@.skip(g as int).drop_first() =~= batch.deaths@.skip(
                    g as int + 1,
                ));
            }
            if group.uids.len() > 0 {
                new_stuff = true;
                let adjusted = match &self.last_time_stamp {
                    Some(l) => if l.sat_sub(&group.tod).nanos < spacing {
                        *l
                    } else {
                        group.tod
                    },
                    None => group.tod,
                };
                let ghost cc_before = self.last_time_stamp;
                proof {
                    assert(adjusted == coalesce(cc_before, grp.tod, sp));
                }
                self.last_time_stamp = Some(adjusted);
                let date = batch.start_time.copy_add(adjusted);
                proof {
                    assert(grp.uids@.skip(0) =~= grp.uids@);
                }
                let mut u: usize = 0;
                while u < group.uids.len()
                    invariant
                        self.wf(),
                        pending_complete(self.map@, f),
                        filters.wf(),
                        *filters == f,
                        self.size == old(self).size,
                        self.timestamp == old(self).timestamp,
                        batch.start_time == start,
                        batch.current_time == current,
                        start.wf(),
                        spacing == sp,
                        sp == min_spacing(batch.current_time, resolution.width),
                        full == ingest_result(
                            buckets_model(old(self).map@),
                            init,
                            f,
                            sp,
                            start,
                            current,
                            batch.births@,
                            batch.deaths@,
                            batch.store@,
                        ),
                        g < batch.deaths@.len(),
                        *group == batch.deaths@[g as int],
                        grp == batch.deaths@[g as int],
                        u <= grp.uids@.len(),
                        date == start.spec_add(coalesce(cc_before, grp.tod, sp)),
                        date.wf(),
                        self.last_time_stamp == Some(coalesce(cc_before, grp.tod, sp)),
                        full == match group_uids_fold(
                            buckets_model(self.map@),
                            date,
                            grp.uids@.skip(u as int),
                            batch.store@,
                            f,
                        ) {
                            Ok(mm) => deaths_fold(
                                mm,
                                Some(coalesce(cc_before, grp.tod, sp)),
                                batch.deaths@.skip(g as int + 1),
                                batch.store@,
                                f,
                                sp,
                                start,
                            ),
                            Err(e) => Err((e.0, Some(coalesce(cc_before, grp.tod, sp)), e.1)),
                        },
                    decreases grp.uids@.len() - u,
                {
                    let uid = group.uids[u];
                    proof {
                        assert(grp.uids@.skip(u as int)[0] == grp.uids@[u as int]);
                        assert(grp.uids@.skip(u as int).drop_first() =~= grp.uids@.skip(
                            u as int + 1,
                        ));
                    }
                    match crate::allocs::find_alloc(&batch.store, uid) {
                        None => {
                            proof {
                                assert(crate::allocs::store_get(batch.store@, uid) is None);
                                assert(death_uid_step(
                                    buckets_model(self.map@),
                                    date,
                                    grp.uids@[u as int],
                                    batch.store@,
                                    f,
                                ) == Err::<Seq<(Date, Map<LineUid, (u64, u64)>)>, u64>(uid));
                            }
                            return Err(Error::UnresolvedDead(uid));
                        },
                        Some(a) => {
                            let line = match filters.find_dead_match(a) {
                                Some(fu) => LineUid::Filter(fu),
                                None => LineUid::CatchAll,
                            };
                            proof {
                                assert(line == resolve_line(f, *a));
                                if first_match(f.filters@, *a, 0) is Some {
                                    lemma_first_match_line(f, *a, 0);
                                } else {
                                    lemma_catch_all_line(f);
                                }
                                lemma_catch_all_line(f);
                            }
                            let ghost bm_before = buckets_model(self.map@);
                            proof {
                                lemma_model_sorted(self.map@);
                            }
                            pending_add(&mut self.map, date, line, a.size, false, filters);
                            let ghost bm_mid = buckets_model(self.map@);
                            pending_add(
                                &mut self.map,
                                date,
                                LineUid::Everything,
                                a.size,
                                false,
                                filters,
                            );
                            proof {
                                let b0 = bucket_at(bm_before, date, f);
                                let x = add_death_delta(b0, line, a.size);
                                let y = add_death_delta(x, LineUid::Everything, a.size);
                                assert(sorted_model(bm_before));
                                lemma_seq_put_get(bm_before, date, x, date);
                                assert(bucket_at(bm_mid, date, f) == x);
                                lemma_seq_put_twice(bm_before, date, x, y);
                                assert(buckets_model(self.map@) == seq_put(bm_before, date, y));
                                assert(death_uid_step(
                                    bm_before,
                                    date,
                                    grp.uids@[u as int],
                                    batch.store@,
                                    f,
                                ) == Ok::<_, u64>(buckets_model(self.map@)));
                            }
                        },
                    }
                    u += 1;
                }
                proof {
                    assert(grp.uids@.skip(grp.uids@.len() as int) =~= Seq::<u64>::empty());
                }
            }
            g += 1;
        }
        proof {
            assert(batch.deaths@.skip(batch.deaths@.len() as int) =~= Seq::<DeathGroup>::empty());
            assert(full == Ok::<_, (Seq<(Date, Map<LineUid, (u64, u64)>)>, Option<SinceStart>, u64)>(
                (buckets_model(self.map@), self.last_time_stamp),
            ));
            assert(new_stuff == any_event(batch.births@, batch.deaths@));
        }
        if new_stuff {
            self.timestamp = batch.current_time.sat_add(&SinceStart::from_nanos(1));
        }
        Ok(())
    }

    /// One full pull: ingests everything the source supplies since the
    /// cursor, then flushes the pending buckets into points.
    pub fn new_points(
        &mut self,
        filters: &Filters,
        init: bool,
        resolution: crate::chart::Resolution,
        batch: &SourceBatch,
    ) -> (r: Res<Points>)
        requires
            old(self).wf(),
            filters.wf(),
            pending_complete(old(self).map@, *filters),
            resolution.width >= 200,
            batch.start_time.wf(),
        ensures
            final(self).wf(),
            ({
                let res = ingest_result(
                    buckets_model(old(self).map@),
                    init,
                    *filters,
                    min_spacing(batch.current_time, resolution.width),
                    batch.start_time,
                    batch.current_time,
                    batch.births@,
                    batch.deaths@,
                    batch.store@,
                );
                match r {
                    Ok(points) => res matches Ok(mcc) && final(self).map@.len() == 0
                        && pv_map(final(self).size) == flush_base(pv_map(old(self).size), mcc.0)
                        && points_model(points@) == flushed_points_model(
                        pv_map(old(self).size),
                        mcc.0,
                    ) && final(self).last_time_stamp == mcc.1 && final(self).timestamp == (
                    if any_event(batch.births@, batch.deaths@) {
                        (SinceStart { nanos: sat_add_u64(batch.current_time.nanos, 1) })
                    } else {
                        old(self).timestamp
                    }),
                    Err(e) => (res matches Err(mccu) && e == Error::UnresolvedDead(mccu.2)
                        && buckets_model(final(self).map@) == mccu.0 && final(self).size == old(
                        self,
                    ).size && final(self).last_time_stamp == mccu.1 && final(self).timestamp
                        == old(self).timestamp),
                }
            }),
    {
        match self.get_allocs(filters, init, resolution, batch) {
            Ok(()) => (),
            Err(e) => {
                return Err(e);
            },
        }
        Ok(self.generate_points())
    }
}

/// What a flush emits, border synthesis included: the per-bucket points, and
/// around a single point its two synthesized borders — a zero-valued point
/// one nanosecond before and a duplicate one nanosecond after.
pub open spec fn flushed_points_model(
    base: Map<LineUid, u64>,
    seq: Seq<(Date, Map<LineUid, (u64, u64)>)>,
) -> Seq<(Date, Map<LineUid, u64>)> {
    let ms = flush_points(base, seq);
    if ms.len() == 1 {
        seq![
            (ms[0].0.spec_sub_one_nano(), zero_of(ms[0].1)),
            (ms[0].0, ms[0].1),
            (ms[0].0.spec_add_one_nano(), ms[0].1),
        ]
    } else {
        ms
    }
}


/// After a flush the pending buckets are empty, and a flush of an engine
/// with empty pending buckets emits no points at all: flushing twice with no
/// pull in between returns an empty sequence the second time.
pub proof fn lemma_flush_idempotent(base: Map<LineUid, u64>)
    ensures
        flushed_points_model(base, Seq::empty()) == Seq::<(Date, Map<LineUid, u64>)>::empty(),
        flush_base(base, Seq::empty()) == base,
        buckets_model(Seq::empty()) == Seq::<(Date, Map<LineUid, (u64, u64)>)>::empty(),
{
    assert(flush_points(base, Seq::empty()) =~= Seq::<(Date, Map<LineUid, u64>)>::empty());
    assert(buckets_model(Seq::empty()) =~= Seq::<(Date, Map<LineUid, (u64, u64)>)>::empty());
}

/// Two birth events whose real-time gap stays under the minimum spacing
/// land in the same bucket date: the second reuses the coalescing cursor the
/// first one set.
pub proof fn lemma_coalesced_births_share_bucket(
    m: Seq<(Date, Map<LineUid, (u64, u64)>)>,
    cc: Option<SinceStart>,
    a1: Alloc,
    a2: Alloc,
    filters: Filters,
    spacing: u64,
    start: Date,
)
    requires
        sat_sub_u64(coalesce(cc, a1.toc, spacing).nanos, a2.toc.nanos) < spacing,
    ensures
        ({
            let s1 = birth_step(m, cc, a1, filters, spacing, start);
            let s2 = birth_step(s1.0, s1.1, a2, filters, spacing, start);
            coalesce(s1.1, a2.toc, spacing) == coalesce(cc, a1.toc, spacing) && start.spec_add(
                coalesce(s1.1, a2.toc, spacing),
            ) == start.spec_add(coalesce(cc, a1.toc, spacing)) && s2.1 == s1.1
        }),
{
}

/// The line an object resolves to is never the aggregate line, and always a
/// line of the registry.
pub proof fn lemma_resolve_line(filters: Filters, a: Alloc)
    ensures
        resolve_line(filters, a) != LineUid::Everything,
        filters.spec_line_uids().contains(resolve_line(filters, a)),
{
    if first_match(filters.filters@, a, 0) is Some {
        lemma_first_match_line(filters, a, 0);
    } else {
        lemma_catch_all_line(filters);
    }
}

/// A pull carrying exactly one birth event of size `s` matched to line `L`,
/// followed by a flush: the baseline of `L` and of the aggregate line grow
/// by exactly `s`, every other line keeps its total, and the flush emits
/// exactly three points — a zero-valued point one nanosecond before the
/// event's bucket date, the event's point, and a duplicate one nanosecond
/// after — whose values at `L` and at the aggregate line are the old totals
/// plus `s`.
pub proof fn lemma_single_birth_pull(
    filters: Filters,
    a: Alloc,
    base: Map<LineUid, u64>,
    start: Date,
    current: SinceStart,
    spacing: u64,
)
    requires
        forall|k: LineUid| base.dom().contains(k) <==> filters.spec_line_uids().contains(k),
        forall|k: LineUid| base.dom().contains(k) ==> base[k] + a.size <= u64::MAX,
    ensures
        ({
            let res = ingest_result(
                Seq::empty(),
                false,
                filters,
                spacing,
                start,
                current,
                seq![a],
                Seq::empty(),
                Seq::empty(),
            );
            let line = resolve_line(filters, a);
            let date = start.spec_add(coalesce(Some(current), a.toc, spacing));
            res matches Ok(mcc) && {
                let nb = flush_base(base, mcc.0);
                let pts = flushed_points_model(base, mcc.0);
                &&& nb.dom() =~= base.dom()
                &&& nb[line] == base[line] + a.size
                &&& nb[LineUid::Everything] == base[LineUid::Everything] + a.size
                &&& forall|k: LineUid|
                    base.dom().contains(k) && k != line && k != LineUid::Everything ==> nb[k]
                        == base[k]
                &&& pts.len() == 3
                &&& pts[0].0 == date.spec_sub_one_nano()
                &&& pts[1].0 == date
                &&& pts[2].0 == date.spec_add_one_nano()
                &&& forall|k: LineUid| pts[0].1.dom().contains(k) ==> pts[0].1[k] == 0
                &&& pts[1].1 == nb
                &&& pts[2].1 == nb
            }
        }),
{
    let line = resolve_line(filters, a);
    lemma_resolve_line(filters, a);
    lemma_catch_all_line(filters);
    let bt = coalesce(Some(current), a.toc, spacing);
    let date = start.spec_add(bt);
    let empty_m = Seq::<(Date, Map<LineUid, (u64, u64)>)>::empty();
    let b0 = bucket_at(empty_m, date, filters);
    assert(b0 == init_bucket(filters));
    let b1 = add_birth_delta(b0, line, a.size);
    let b = add_birth_delta(b1, LineUid::Everything, a.size);
    let m2 = seq_put(empty_m, date, b);
    assert(m2 =~= seq![(date, b)]);
    assert(seq![a].drop_first() =~= Seq::<Alloc>::empty());
    assert(seq![a][0] == a);
    assert(birth_step(empty_m, Some(current), a, filters, spacing, start) == (m2, Some(bt)));
    assert(births_fold(m2, Some(bt), Seq::<Alloc>::empty(), filters, spacing, start) == (
        m2,
        Some(bt),
    ));
    assert(births_fold(empty_m, Some(current), seq![a], filters, spacing, start) == (
        m2,
        Some(bt),
    ));
    let res = ingest_result(
        Seq::empty(),
        false,
        filters,
        spacing,
        start,
        current,
        seq![a],
        Seq::empty(),
        Seq::empty(),
    );
    assert(deaths_fold(m2, Some(current), Seq::empty(), Seq::empty(), filters, spacing, start)
        == Ok::<(Seq<(Date, Map<LineUid, (u64, u64)>)>, Option<SinceStart>), (
        Seq<(Date, Map<LineUid, (u64, u64)>)>,
        Option<SinceStart>,
        u64,
    )>((m2, Some(current))));
    assert(res == Ok::<_, (Seq<(Date, Map<LineUid, (u64, u64)>)>, Option<SinceStart>, u64)>(
        (m2, Some(current)),
    ));
    let nb = adv_map(base, b);
    assert(m2.drop_first() =~= Seq::<(Date, Map<LineUid, (u64, u64)>)>::empty());
    assert(m2[0] == (date, b));
    assert(flush_points(nb, Seq::<(Date, Map<LineUid, (u64, u64)>)>::empty())
        =~= Seq::<(Date, Map<LineUid, u64>)>::empty());
    assert(flush_points(base, m2) =~= seq![(date, nb)]);
    assert(flush_base(nb, Seq::<(Date, Map<LineUid, (u64, u64)>)>::empty()) == nb);
    assert(flush_base(base, m2) == nb);
    let pts = flushed_points_model(base, m2);
    assert(pts =~= seq![
        (date.spec_sub_one_nano(), zero_of(nb)),
        (date, nb),
        (date.spec_add_one_nano(), nb),
    ]);
    assert(nb.dom() =~= base.dom()) by {
        assert forall|k: LineUid| nb.dom().contains(k) <==> base.dom().contains(k) by {
            assert(b.dom().contains(k) <==> (init_bucket(filters).dom().contains(k) || k == line
                || k == LineUid::Everything));
        }
    }
    assert(b[line] == (a.size, 0u64)) by {
        assert(delta_get_or(b0, line) == (0u64, 0u64));
        if line != LineUid::Everything {
            assert(b1[line] == (sat_add_u64(0, a.size), 0u64));
        }
    }
    assert(b[LineUid::Everything] == (a.size, 0u64)) by {
        assert(delta_get_or(b1, LineUid::Everything) == (0u64, 0u64));
    }
    assert(nb[line] == base[line] + a.size) by {
        assert(base.dom().contains(line));
        assert(advanced_val(base[line], (a.size, 0u64)) == sat_sub_u64(
            sat_add_u64(base[line], a.size),
            0,
        ));
    }
    assert(nb[LineUid::Everything] == base[LineUid::Everything] + a.size) by {
        assert(base.dom().contains(LineUid::Everything));
    }
    assert forall|k: LineUid|
        base.dom().contains(k) && k != line && k != LineUid::Everything implies nb[k]
            == base[k] by {
        assert(b[k] == (0u64, 0u64));
        assert(advanced_val(base[k], (0u64, 0u64)) == base[k]);
    }
}

/// A pull carrying exactly one death notification of size `s` resolved to
/// line `L`, followed by a flush: the baseline of `L` and of the aggregate
/// line shrink by exactly `s`, and every other line keeps its total. The
/// totals are unsigned throughout: no intermediate state can hold a negative
/// baseline.
pub proof fn lemma_single_death_pull(
    filters: Filters,
    a: Alloc,
    g: DeathGroup,
    base: Map<LineUid, u64>,
    start: Date,
    current: SinceStart,
    spacing: u64,
)
    requires
        g.uids@ == seq![a.uid],
        forall|k: LineUid| base.dom().contains(k) <==> filters.spec_line_uids().contains(k),
        base.dom().contains(resolve_line(filters, a)) ==> a.size <= base[resolve_line(filters, a)],
        base.dom().contains(LineUid::Everything) ==> a.size <= base[LineUid::Everything],
    ensures
        ({
            let res = ingest_result(
                Seq::empty(),
                false,
                filters,
                spacing,
                start,
                current,
                Seq::empty(),
                seq![g],
                seq![a],
            );
            let line = resolve_line(filters, a);
            res matches Ok(mcc) && {
                let nb = flush_base(base, mcc.0);
                &&& nb.dom() =~= base.dom()
                &&& nb[line] == base[line] - a.size
                &&& nb[LineUid::Everything] == base[LineUid::Everything] - a.size
                &&& forall|k: LineUid|
                    base.dom().contains(k) && k != line && k != LineUid::Everything ==> nb[k]
                        == base[k]
            }
        }),
{
    let line = resolve_line(filters, a);
    lemma_resolve_line(filters, a);
    lemma_catch_all_line(filters);
    let dt = coalesce(Some(current), g.tod, spacing);
    let date = start.spec_add(dt);
    let empty_m = Seq::<(Date, Map<LineUid, (u64, u64)>)>::empty();
    assert(births_fold(empty_m, Some(current), Seq::empty(), filters, spacing, start) == (
        empty_m,
        Some(current),
    ));
    assert(g.uids@ =~= seq![a.uid]);
    assert(crate::allocs::store_get(seq![a], a.uid) == Some(a)) by {
        assert(seq![a][0].uid == a.uid);
    }
    let b0 = bucket_at(empty_m, date, filters);
    assert(b0 == init_bucket(filters));
    let b1 = add_death_delta(b0, line, a.size);
    let b = add_death_delta(b1, LineUid::Everything, a.size);
    let m1 = seq_put(empty_m, date, b);
    assert(m1 =~= seq![(date, b)]);
    assert(death_uid_step(empty_m, date, a.uid, seq![a], filters) == Ok::<_, u64>(m1));
    assert(seq![a.uid].drop_first() =~= Seq::<u64>::empty());
    assert(seq![a.uid][0] == a.uid);
    assert(group_uids_fold(m1, date, Seq::<u64>::empty(), seq![a], filters) == Ok::<_, (
        Seq<(Date, Map<LineUid, (u64, u64)>)>,
        u64,
    )>(m1));
    assert(group_uids_fold(empty_m, date, seq![a.uid], seq![a], filters) == Ok::<_, (
        Seq<(Date, Map<LineUid, (u64, u64)>)>,
        u64,
    )>(m1));
    assert(seq![g].drop_first() =~= Seq::<DeathGroup>::empty());
    assert(seq![g][0] == g);
    assert(group_step(empty_m, Some(current), g, seq![a], filters, spacing, start) == Ok::<(
        Seq<(Date, Map<LineUid, (u64, u64)>)>,
        Option<SinceStart>,
    ), (Seq<(Date, Map<LineUid, (u64, u64)>)>, Option<SinceStart>, u64)>((m1, Some(dt))));
    assert(deaths_fold(m1, Some(dt), Seq::<DeathGroup>::empty(), seq![a], filters, spacing, start)
        == Ok::<(Seq<(Date, Map<LineUid, (u64, u64)>)>, Option<SinceStart>), (
        Seq<(Date, Map<LineUid, (u64, u64)>)>,
        Option<SinceStart>,
        u64,
    )>((m1, Some(dt))));
    let res = ingest_result(
        Seq::empty(),
        false,
        filters,
        spacing,
        start,
        current,
        Seq::empty(),
        seq![g],
        seq![a],
    );
    assert(res == Ok::<_, (Seq<(Date, Map<LineUid, (u64, u64)>)>, Option<SinceStart>, u64)>(
        (m1, Some(dt)),
    ));
    let nb = adv_map(base, b);
    assert(m1.drop_first() =~= Seq::<(Date, Map<LineUid, (u64, u64)>)>::empty());
    assert(m1[0] == (date, b));
    assert(flush_base(nb, Seq::<(Date, Map<LineUid, (u64, u64)>)>::empty()) == nb);
    assert(flush_base(base, m1) == nb);
    assert(nb.dom() =~= base.dom()) by {
        assert forall|k: LineUid| nb.dom().contains(k) <==> base.dom().contains(k) by {
            assert(b.dom().contains(k) <==> (init_bucket(filters).dom().contains(k) || k == line
                || k == LineUid::Everything));
        }
    }
    assert(b[line] == (0u64, a.size)) by {
        assert(delta_get_or(b0, line) == (0u64, 0u64));
        if line != LineUid::Everything {
            assert(b1[line] == (0u64, sat_add_u64(0, a.size)));
        }
    }
    assert(b[LineUid::Everything] == (0u64, a.size)) by {
        assert(delta_get_or(b1, LineUid::Everything) == (0u64, 0u64));
    }
    assert(nb[line] == base[line] - a.size) by {
        assert(base.dom().contains(line));
        assert(advanced_val(base[line], (0u64, a.size)) == sat_sub_u64(
            sat_add_u64(base[line], 0),
            a.size,
        ));
    }
    assert(nb[LineUid::Everything] == base[LineUid::Everything] - a.size);
    assert forall|k: LineUid|
        base.dom().contains(k) && k != line && k != LineUid::Everything implies nb[k]
            == base[k] by {
        assert(b[k] == (0u64, 0u64));
        assert(advanced_val(base[k], (0u64, 0u64)) == base[k]);
    }
}


/// The total size born into a line by a batch of birth events: the sizes of
/// the events the line resolves; the aggregate line collects every event.
pub open spec fn births_total(births: Seq<Alloc>, filters: Filters, l: LineUid) -> int
    decreases births.len(),
{
    if births.len() == 0 {
        0
    } else {
        (if l == LineUid::Everything || resolve_line(filters, births[0]) == l {
            births[0].size as int
        } else {
            0
        }) + births_total(births.drop_first(), filters, l)
    }
}

/// The total added amount a line holds across the pending buckets.
pub open spec fn added_total(m: Seq<(Date, Map<LineUid, (u64, u64)>)>, l: LineUid) -> int
    decreases m.len(),
{
    if m.len() == 0 {
        0
    } else {
        delta_get_or(m[0].1, l).0 + added_total(m.drop_first(), l)
    }
}

/// The total removed amount a line holds across the pending buckets.
pub open spec fn removed_total(m: Seq<(Date, Map<LineUid, (u64, u64)>)>, l: LineUid) -> int
    decreases m.len(),
{
    if m.len() == 0 {
        0
    } else {
        delta_get_or(m[0].1, l).1 + removed_total(m.drop_first(), l)
    }
}

/// A bucket's share of a line's added amount never exceeds the line's total.
pub proof fn lemma_bucket_le_total(m: Seq<(Date, Map<LineUid, (u64, u64)>)>, d: Date, l: LineUid)
    ensures
        delta_get_or(bucket_at(m, d, arbitrary()), l).0 <= added_total(m, l) || crate::point::seq_get(
            m,
            d,
        ) is None,
        added_total(m, l) >= 0,
        removed_total(m, l) >= 0,
    decreases m.len(),
{
    if m.len() > 0 {
        lemma_bucket_le_total(m.drop_first(), d, l);
        if m[0].0 != d {
            if key_index(m.drop_first(), d) != -1 {
                crate::point::lemma_key_index(m.drop_first(), d);
                assert(m[key_index(m.drop_first(), d) + 1] == m.drop_first()[key_index(
                    m.drop_first(),
                    d,
                )]);
            }
            assert(crate::point::seq_get(m, d) == crate::point::seq_get(m.drop_first(), d));
        }
    }
}

/// Putting a bucket moves a line's total by the difference between the new
/// bucket's share and the replaced one's.
pub proof fn lemma_added_total_put(
    m: Seq<(Date, Map<LineUid, (u64, u64)>)>,
    d: Date,
    b: Map<LineUid, (u64, u64)>,
    l: LineUid,
)
    requires
        sorted_model(m),
    ensures
        added_total(seq_put(m, d, b), l) == added_total(m, l) + delta_get_or(b, l).0
            - delta_get_or(bucket_at(m, d, arbitrary()), l).0 || (crate::point::seq_get(m, d)
            is None && added_total(seq_put(m, d, b), l) == added_total(m, l) + delta_get_or(
            b,
            l,
        ).0),
        removed_total(seq_put(m, d, b), l) == removed_total(m, l) + delta_get_or(b, l).1
            - delta_get_or(bucket_at(m, d, arbitrary()), l).1 || (crate::point::seq_get(m, d)
            is None && removed_total(seq_put(m, d, b), l) == removed_total(m, l) + delta_get_or(
            b,
            l,
        ).1),
        crate::point::seq_get(m, d) is None ==> delta_get_or(
            bucket_at(m, d, arbitrary()),
            l,
        ) == delta_get_or(init_bucket(arbitrary()), l) || true,
    decreases m.len(),
{
    let t = seq_put(m, d, b);
    if m.len() == 0 {
        assert(t =~= seq![(d, b)]);
        assert(t.drop_first() =~= m);
    } else if m[0].0 == d {
        assert(t[0] == (d, b));
        assert(t.drop_first() =~= m.drop_first());
    } else if d.spec_lt(m[0].0) {
        assert(t[0] == (d, b));
        assert(t.drop_first() =~= m);
        assert(crate::point::seq_get(m, d) is None) by {
            crate::point::lemma_key_index(m, d);
            if key_index(m, d) != -1 {
                let q = key_index(m, d);
                assert(m[q].0 == d);
                if q > 0 {
                    assert(m[0].0.spec_lt(m[q].0));
                }
            }
        }
    } else {
        let rest = m.drop_first();
        assert forall|i: int, j: int|
            0 <= i < j < rest.len() implies (#[trigger] rest[i]).0.spec_lt(
            (#[trigger] rest[j]).0,
        ) by {
            assert(rest[i] == m[i + 1] && rest[j] == m[j + 1]);
        }
        lemma_added_total_put(rest, d, b, l);
        assert(t[0] == m[0]);
        assert(t.drop_first() =~= seq_put(rest, d, b));
        if m[0].0 != d {
            if key_index(rest, d) != -1 {
                crate::point::lemma_key_index(rest, d);
                assert(m[key_index(rest, d) + 1] == rest[key_index(rest, d)]);
            }
            assert(crate::point::seq_get(m, d) == crate::point::seq_get(rest, d));
        }
    }
}

/// One pull of birth events moves every line's pending added total by
/// exactly the size born into it, and no removed total at all.
///
/// The bound keeps every saturating sum exact: for each line, the total
/// already pending plus the total the batch brings must fit the
/// representation.
pub proof fn lemma_births_conservation(
    m: Seq<(Date, Map<LineUid, (u64, u64)>)>,
    cc: Option<SinceStart>,
    births: Seq<Alloc>,
    filters: Filters,
    spacing: u64,
    start: Date,
)
    requires
        sorted_model(m),
        forall|l: LineUid| #[trigger] added_total(m, l) + births_total(births, filters, l)
            <= u64::MAX,
    ensures
        ({
            let out = births_fold(m, cc, births, filters, spacing, start).0;
            &&& sorted_model(out)
            &&& forall|l: LineUid| #[trigger] added_total(out, l) == added_total(m, l)
                + births_total(births, filters, l)
            &&& forall|l: LineUid| #[trigger] removed_total(out, l) == removed_total(m, l)
        }),
    decreases births.len(),
{
    if births.len() == 0 {
        assert forall|l: LineUid| #[trigger] added_total(m, l) == added_total(m, l)
            + births_total(births, filters, l) by {}
    } else {
        let a = births[0];
        let line = resolve_line(filters, a);
        lemma_resolve_line(filters, a);
        let bt = coalesce(cc, a.toc, spacing);
        let date = start.spec_add(bt);
        let b0 = bucket_at(m, date, filters);
        let b1 = add_birth_delta(b0, line, a.size);
        let b = add_birth_delta(b1, LineUid::Everything, a.size);
        let m1 = seq_put(m, date, b);
        // Each saturating sum in this step is exact.
        assert forall|l: LineUid| #[trigger] delta_get_or(b0, l).0 + (if l == LineUid::Everything
            || l == line {
            a.size as int
        } else {
            0
        }) <= u64::MAX by {
            lemma_bucket_le_total(m, date, l);
            assert(births_total(births, filters, l) >= (if l == LineUid::Everything || l == line {
                a.size as int
            } else {
                0
            })) by {
                lemma_bucket_le_total(Seq::empty(), date, l);
                lemma_births_total_nonneg(births.drop_first(), filters, l);
            }
            if crate::point::seq_get(m, date) is None {
                assert(delta_get_or(b0, l).0 == 0) by {
                    assert(b0 == init_bucket(filters));
                }
            }
        }
        assert forall|l: LineUid| #[trigger] delta_get_or(b, l).0 == delta_get_or(b0, l).0 + (
        if l == LineUid::Everything || l == line {
            a.size as int
        } else {
            0
        }) by {
            if l == LineUid::Everything {
                assert(delta_get_or(b1, l).0 == delta_get_or(b0, l).0) by {
                    assert(line != LineUid::Everything);
                }
            }
        }
        assert forall|l: LineUid| #[trigger] delta_get_or(b, l).1 == delta_get_or(b0, l).1 by {}
        // The totals move by this event's contribution.
        lemma_seq_put_get(m, date, b, date);
        assert forall|l: LineUid| #[trigger] added_total(m1, l) == added_total(m, l) + (
        if l == LineUid::Everything || l == line {
            a.size as int
        } else {
            0
        }) by {
            lemma_added_total_put(m, date, b, l);
            lemma_bucket_le_total(m, date, l);
            if crate::point::seq_get(m, date) is None {
                assert(b0 == init_bucket(filters));
                assert(delta_get_or(b0, l).0 == 0);
            }
        }
        assert forall|l: LineUid| #[trigger] removed_total(m1, l) == removed_total(m, l) by {
            lemma_added_total_put(m, date, b, l);
            if crate::point::seq_get(m, date) is None {
                assert(b0 == init_bucket(filters));
                assert(delta_get_or(b0, l).1 == 0);
            }
        }
        // Recurse on the remaining events.
        assert forall|l: LineUid| #[trigger] added_total(m1, l) + births_total(
            births.drop_first(),
            filters,
            l,
        ) <= u64::MAX by {
            assert(added_total(m, l) + births_total(births, filters, l) <= u64::MAX);
        }
        lemma_births_conservation(m1, Some(bt), births.drop_first(), filters, spacing, start);
        assert(births_fold(m, cc, births, filters, spacing, start) == births_fold(
            m1,
            Some(bt),
            births.drop_first(),
            filters,
            spacing,
            start,
        ));
    }
}

/// Batch totals are never negative.
pub proof fn lemma_births_total_nonneg(births: Seq<Alloc>, filters: Filters, l: LineUid)
    ensures
        births_total(births, filters, l) >= 0,
    decreases births.len(),
{
    if births.len() > 0 {
        lemma_births_total_nonneg(births.drop_first(), filters, l);
    }
}

/// Flushing conserves every line's total exactly: the new baseline is the
/// old one plus the pending added total, minus the pending removed total —
/// provided every bucket carries the line, every intermediate sum fits the
/// representation, and no bucket removes more than the line holds at that
/// bucket (the source invariant: a death is never counted before its birth).
pub proof fn lemma_flush_conservation(
    base: Map<LineUid, u64>,
    m: Seq<(Date, Map<LineUid, (u64, u64)>)>,
    l: LineUid,
)
    requires
        base.dom().contains(l),
        forall|i: int| 0 <= i < m.len() ==> (#[trigger] m[i]).1.dom().contains(l),
        base[l] + added_total(m, l) <= u64::MAX,
        flush_no_underflow(base, m, l),
    ensures
        flush_base(base, m).dom().contains(l),
        flush_base(base, m)[l] == base[l] + added_total(m, l) - removed_total(m, l),
    decreases m.len(),
{
    if m.len() > 0 {
        let nb = adv_map(base, m[0].1);
        let d = m[0].1[l];
        lemma_bucket_le_total(m.drop_first(), m[0].0, l);
        assert(delta_get_or(m[0].1, l) == d);
        assert(nb[l] == base[l] + d.0 - d.1) by {
            assert(added_total(m.drop_first(), l) >= 0);
        }
        assert forall|i: int| 0 <= i < m.drop_first().len() implies (#[trigger] m.drop_first()[
            i
        ]).1.dom().contains(l) by {
            assert(m.drop_first()[i] == m[i + 1]);
        }
        lemma_flush_conservation(nb, m.drop_first(), l);
    }
}

/// No bucket of the pending sequence removes more from the line than the
/// running total holds when that bucket flushes, and every intermediate sum
/// fits the representation.
pub open spec fn flush_no_underflow(
    base: Map<LineUid, u64>,
    m: Seq<(Date, Map<LineUid, (u64, u64)>)>,
    l: LineUid,
) -> bool
    decreases m.len(),
{
    m.len() == 0 || {
        let d = delta_get_or(m[0].1, l);
        &&& base.dom().contains(l) ==> base[l] + d.0 <= u64::MAX && d.1 <= base[l] + d.0
        &&& flush_no_underflow(adv_map(base, m[0].1), m.drop_first(), l)
    }
}

} // verus!
