//! The aggregation engine, exercised on concrete event streams.

use memchart::allocs::Alloc;
use memchart::chart::time::{DeathGroup, SourceBatch, TimeSize};
use memchart::chart::Resolution;
use memchart::err::Error;
use memchart::filter::Filters;
use memchart::time::{Date, SinceStart};
use memchart::uid::LineUid;

const SEC: u64 = 1_000_000_000;

fn birth(uid: u64, size: u64, toc_nanos: u64) -> Alloc {
    Alloc::new(uid, size, SinceStart::from_nanos(toc_nanos), vec![])
}

fn batch(births: Vec<Alloc>, deaths: Vec<DeathGroup>, store: Vec<Alloc>) -> SourceBatch {
    SourceBatch {
        start_time: Date::from_timestamp(100, 0),
        current_time: SinceStart::from_nanos(10 * SEC),
        births,
        deaths,
        store,
    }
}

/// A wide display: the minimum spacing shrinks far below the event gaps, so
/// every event opens its own bucket at its own time.
fn wide() -> Resolution {
    Resolution { width: 200_000 }
}

/// The narrowest display: the minimum spacing is the whole current stream
/// time, so everything coalesces into one bucket.
fn narrow() -> Resolution {
    Resolution { width: 200 }
}

#[test]
fn single_birth_yields_three_points() {
    // One birth of size 42 at stream time 5s, nothing else: exactly three
    // points — a zero point one nanosecond before, the event's point, and a
    // duplicate one nanosecond after.
    let filters = Filters::new();
    let mut engine = TimeSize::new(&filters);
    let b = batch(vec![birth(1, 42, 5 * SEC)], vec![], vec![]);
    let points = engine.new_points(&filters, false, wide(), &b).unwrap();
    assert_eq!(points.len(), 3);
    assert_eq!(points[0].key.timestamp(), (104, 999_999_999));
    assert_eq!(points[1].key.timestamp(), (105, 0));
    assert_eq!(points[2].key.timestamp(), (105, 1));
    for line in [LineUid::Everything, LineUid::CatchAll] {
        assert_eq!(points[0].vals.get_or(line, 7), 0);
        assert_eq!(points[1].vals.get_or(line, 7), 42);
        assert_eq!(points[2].vals.get_or(line, 7), 42);
    }
}

#[test]
fn flush_is_idempotent() {
    // A second flush with no pull in between emits nothing.
    let filters = Filters::new();
    let mut engine = TimeSize::new(&filters);
    let b = batch(vec![birth(1, 42, 5 * SEC)], vec![], vec![]);
    let points = engine.new_points(&filters, false, wide(), &b).unwrap();
    assert_eq!(points.len(), 3);
    let again = engine.generate_points();
    assert_eq!(again.len(), 0);
}

#[test]
fn narrow_display_coalesces_close_births() {
    // Two births one millisecond apart, while the minimum spacing spans the
    // whole stream: both land in the same bucket date.
    let filters = Filters::new();
    let mut engine = TimeSize::new(&filters);
    let b = batch(
        vec![birth(1, 10, 5 * SEC), birth(2, 20, 5 * SEC + 1_000_000)],
        vec![],
        vec![],
    );
    let points = engine.new_points(&filters, false, narrow(), &b).unwrap();
    // One bucket, so the single point grows its two borders.
    assert_eq!(points.len(), 3);
    assert_eq!(points[1].vals.get_or(LineUid::Everything, 0), 30);
}

#[test]
fn wide_display_separates_far_births() {
    // The same two births under a wide display: the gap exceeds the minimum
    // spacing, so each opens its own bucket. The source iterates events
    // newest first; the flush still emits the buckets in ascending order.
    let filters = Filters::new();
    let mut engine = TimeSize::new(&filters);
    let b = batch(
        vec![birth(2, 20, 7 * SEC), birth(1, 10, 5 * SEC)],
        vec![],
        vec![],
    );
    let points = engine.new_points(&filters, false, wide(), &b).unwrap();
    assert_eq!(points.len(), 2);
    // Buckets flush in ascending date order, totals accumulate.
    assert_eq!(points[0].key.timestamp(), (105, 0));
    assert_eq!(points[1].key.timestamp(), (107, 0));
    assert_eq!(points[0].vals.get_or(LineUid::Everything, 0), 10);
    assert_eq!(points[1].vals.get_or(LineUid::Everything, 0), 30);
}

#[test]
fn death_shrinks_the_baseline() {
    let filters = Filters::new();
    let mut engine = TimeSize::new(&filters);
    let obj = birth(1, 50, 2 * SEC);
    let b1 = batch(vec![obj.clone()], vec![], vec![]);
    let points = engine.new_points(&filters, false, wide(), &b1).unwrap();
    assert_eq!(points[1].vals.get_or(LineUid::Everything, 0), 50);
    // The object dies; its size leaves its line and the aggregate line.
    let b2 = batch(
        vec![],
        vec![DeathGroup { tod: SinceStart::from_nanos(8 * SEC), uids: vec![1] }],
        vec![obj],
    );
    let points = engine.new_points(&filters, false, wide(), &b2).unwrap();
    assert_eq!(points.len(), 3);
    assert_eq!(points[1].vals.get_or(LineUid::Everything, 7), 0);
    assert_eq!(points[1].vals.get_or(LineUid::CatchAll, 7), 0);
}

#[test]
fn unresolved_dead_identifier_fails_the_pull() {
    let filters = Filters::new();
    let mut engine = TimeSize::new(&filters);
    let cursor_before = engine.timestamp;
    let b = batch(
        vec![],
        vec![DeathGroup { tod: SinceStart::from_nanos(8 * SEC), uids: vec![99] }],
        vec![],
    );
    match engine.new_points(&filters, false, wide(), &b) {
        Err(Error::UnresolvedDead(99)) => {}
        other => panic!("expected an unresolved-dead error, got {:?}", other),
    }
    // The cursor did not advance: a retried pull sees the same events.
    assert_eq!(engine.timestamp, cursor_before);
}

#[test]
fn empty_death_batches_are_skipped() {
    let filters = Filters::new();
    let mut engine = TimeSize::new(&filters);
    let b = batch(
        vec![],
        vec![DeathGroup { tod: SinceStart::from_nanos(8 * SEC), uids: vec![] }],
        vec![],
    );
    let cursor_before = engine.timestamp;
    let points = engine.new_points(&filters, false, wide(), &b).unwrap();
    assert_eq!(points.len(), 0);
    // No event was processed: the cursor stays put.
    assert_eq!(engine.timestamp, cursor_before);
}

#[test]
fn cursor_advances_past_the_stream_time() {
    let filters = Filters::new();
    let mut engine = TimeSize::new(&filters);
    let b = batch(vec![birth(1, 1, SEC)], vec![], vec![]);
    engine.new_points(&filters, false, wide(), &b).unwrap();
    assert_eq!(engine.timestamp.nanos, 10 * SEC + 1);
}

#[test]
fn initial_pull_anchors_the_origin() {
    // An initial pull with no event still opens a zero bucket at the stream
    // origin, so the chart has an anchor point.
    let filters = Filters::new();
    let mut engine = TimeSize::new(&filters);
    let b = batch(vec![], vec![], vec![]);
    let points = engine.new_points(&filters, true, wide(), &b).unwrap();
    assert_eq!(points.len(), 3);
    assert_eq!(points[1].key.timestamp(), (100, 0));
    assert_eq!(points[1].vals.get_or(LineUid::Everything, 7), 0);
}

#[test]
fn reset_rewinds_and_zeroes() {
    let filters = Filters::new();
    let mut engine = TimeSize::new(&filters);
    let b = batch(vec![birth(1, 42, 5 * SEC)], vec![], vec![]);
    engine.new_points(&filters, false, wide(), &b).unwrap();
    engine.reset(&filters);
    assert_eq!(engine.timestamp.nanos, 0);
    assert_eq!(engine.size.get_or(LineUid::Everything, 7), 0);
    // A replay after the reset sees the events again.
    let points = engine.new_points(&filters, false, wide(), &b).unwrap();
    assert_eq!(points.len(), 3);
    assert_eq!(points[1].vals.get_or(LineUid::Everything, 0), 42);
}
