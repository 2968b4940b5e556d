//! The predicate language and the registry, exercised on concrete values.

use memchart::allocs::Alloc;
use memchart::err::{Error, ErrorKind};
use memchart::filter::label::{Kind as LabelKind, LabelFilter, LabelSpec, Update};
use memchart::filter::size::{Cmp, Kind as SizeKind, SizeFilter};
use memchart::filter::{filter_update, Color, Filter, FilterKind, Filters, RawSubFilter, SubFilter};
use memchart::msg::FilterMsg;
use memchart::time::SinceStart;
use memchart::uid::{FilterUid, LineUid, SubFilterUid};

fn labels(words: &[&str]) -> Vec<String> {
    words.iter().map(|w| w.to_string()).collect()
}

#[test]
fn size_comparisons() {
    assert!(SizeFilter::Cmp { cmp: Cmp::Lt, val: 10 }.apply(9));
    assert!(!SizeFilter::Cmp { cmp: Cmp::Lt, val: 10 }.apply(10));
    assert!(SizeFilter::Cmp { cmp: Cmp::Le, val: 10 }.apply(10));
    assert!(SizeFilter::Cmp { cmp: Cmp::Eq, val: 10 }.apply(10));
    assert!(!SizeFilter::Cmp { cmp: Cmp::Eq, val: 10 }.apply(11));
    assert!(SizeFilter::Cmp { cmp: Cmp::Ge, val: 10 }.apply(10));
    assert!(SizeFilter::Cmp { cmp: Cmp::Gt, val: 10 }.apply(11));
    assert!(!SizeFilter::Cmp { cmp: Cmp::Gt, val: 10 }.apply(10));
}

#[test]
fn size_range_is_inclusive() {
    let range = SizeFilter::between(3, 5).unwrap();
    assert!(!range.apply(2));
    assert!(range.apply(3));
    assert!(range.apply(4));
    assert!(range.apply(5));
    assert!(!range.apply(6));
}

#[test]
fn size_range_rejects_unordered_bounds() {
    match SizeFilter::between(5, 3) {
        Err(Error::BadRange(5, 3)) => {}
        other => panic!("expected a bad-range error, got {:?}", other),
    }
    assert_eq!(Error::BadRange(5, 3).kind(), ErrorKind::Config);
}

#[test]
fn size_kinds() {
    assert_eq!(SizeKind::all().len(), 6);
    let f = SizeFilter::default_of_cmp(SizeKind::In);
    assert_eq!(f.cmp_kind(), SizeKind::In);
    let g = SizeFilter::default_of_cmp(SizeKind::Cmp(Cmp::Le));
    assert_eq!(g.cmp_kind(), SizeKind::Cmp(Cmp::Le));
}

#[test]
fn label_matcher_wildcard_then_value() {
    // specs [Wildcard, Value("b")] match labels [a, x, b] ...
    let specs = vec![LabelSpec::Anything, LabelSpec::Value("b".to_string())];
    assert!(LabelFilter::check_contain(&specs, &labels(&["a", "x", "b"])));
    // ... but not [a, b, x]: a label remains after the specs are consumed.
    assert!(!LabelFilter::check_contain(&specs, &labels(&["a", "b", "x"])));
}

#[test]
fn label_matcher_wildcard_alone_matches_anything() {
    let specs = vec![LabelSpec::Anything];
    assert!(LabelFilter::check_contain(&specs, &labels(&[])));
    assert!(LabelFilter::check_contain(&specs, &labels(&["a"])));
    assert!(LabelFilter::check_contain(&specs, &labels(&["a", "b", "c"])));
}

#[test]
fn label_matcher_is_greedy() {
    // The greedy matcher consumes the first matching label after a wildcard
    // and never backtracks: [Value(a), Wildcard, Value(a)] fails on [a, a]
    // even though a backtracking matcher would accept it.
    let specs = vec![
        LabelSpec::Value("a".to_string()),
        LabelSpec::Anything,
        LabelSpec::Value("a".to_string()),
    ];
    assert!(LabelFilter::check_contain(&specs, &labels(&["a", "x", "a"])));
    assert!(!LabelFilter::check_contain(&specs, &labels(&["a", "a", "x"])));
}

#[test]
fn label_matcher_exact_accounting() {
    let specs = vec![LabelSpec::Value("a".to_string())];
    assert!(LabelFilter::check_contain(&specs, &labels(&["a"])));
    assert!(!LabelFilter::check_contain(&specs, &labels(&["a", "b"])));
    assert!(!LabelFilter::check_contain(&specs, &labels(&[])));
    let empty: Vec<LabelSpec> = vec![];
    assert!(LabelFilter::check_contain(&empty, &labels(&[])));
    assert!(!LabelFilter::check_contain(&empty, &labels(&["a"])));
}

#[test]
fn label_filter_polarity() {
    let contain = LabelFilter::contain(vec![LabelSpec::Value("a".to_string())]);
    let exclude = LabelFilter::exclude(vec![LabelSpec::Value("a".to_string())]);
    assert!(contain.apply(&labels(&["a"])));
    assert!(!exclude.apply(&labels(&["a"])));
    assert!(!contain.apply(&labels(&["b"])));
    assert!(exclude.apply(&labels(&["b"])));
    assert_eq!(contain.kind(), LabelKind::Contain);
    assert_eq!(exclude.kind(), LabelKind::Exclude);
    assert_eq!(LabelKind::all(), vec![LabelKind::Contain, LabelKind::Exclude]);
}

#[test]
fn label_spec_parsing() {
    assert!(LabelSpec::new("...").unwrap().matches_anything());
    let plain = LabelSpec::new("plain").unwrap();
    assert!(plain.apply("plain"));
    assert!(!plain.apply("other"));
    let regex = LabelSpec::new("#\"^a+$\"#").unwrap();
    assert!(regex.apply("aaa"));
    assert!(!regex.apply("bbb"));
    assert!(!regex.apply(""));
}

#[test]
fn label_spec_rejects_malformed_regexes() {
    // An opening delimiter without its closing one.
    match LabelSpec::new("#\"abc") {
        Err(Error::IllegalRegex(s)) => assert_eq!(s, "#\"abc"),
        other => panic!("expected an illegal-regex error, got {:?}", other),
    }
    // A pattern the regex engine refuses.
    match LabelSpec::new("#\"(\"#") {
        Err(Error::IllegalRegex(_)) => {}
        other => panic!("expected an illegal-regex error, got {:?}", other),
    }
    assert_eq!(
        Error::IllegalRegex("x".to_string()).kind(),
        ErrorKind::Config
    );
}

#[test]
fn label_filter_update() {
    let mut f = LabelFilter::contain(vec![LabelSpec::Value("a".to_string())]);
    assert_eq!(f.update(Update::Kind(LabelKind::Exclude)).unwrap(), true);
    assert_eq!(f.kind(), LabelKind::Exclude);
    assert_eq!(f.update(Update::Kind(LabelKind::Exclude)).unwrap(), false);
    assert_eq!(f.update(Update::Add(0)).unwrap(), true);
    assert_eq!(f.specs().len(), 2);
    assert_eq!(
        f.update(Update::Replace(0, "...".to_string())).unwrap(),
        true
    );
    assert!(f.specs()[0].matches_anything());
    match f.update(Update::Replace(0, "#\"oops".to_string())) {
        Err(Error::IllegalRegex(_)) => {}
        other => panic!("expected an illegal-regex error, got {:?}", other),
    }
}

#[test]
fn color_round_trip() {
    let c = Color::new(0x1a, 0xf0, 0x9b);
    assert_eq!(c.to_str(), "#1af09b");
    assert_eq!(Color::from_str("#1af09b").unwrap(), c);
    assert_eq!(Color::from_str("#1AF09B").unwrap(), c);
    match Color::from_str("red") {
        Err(Error::IllegalColor(s)) => assert_eq!(s, "red"),
        other => panic!("expected an illegal-color error, got {:?}", other),
    }
    match Color::from_str("#12345g") {
        Err(Error::IllegalColor(_)) => {}
        other => panic!("expected an illegal-color error, got {:?}", other),
    }
}

fn small_filter(uid: u64, name: &str) -> Filter {
    Filter::new(
        FilterUid { index: uid },
        name.to_string(),
        Color::new(1, 2, 3),
    )
}

#[test]
fn push_collision_leaves_registry_unchanged() {
    let mut filters = Filters::new();
    filters.push(small_filter(7, "first")).unwrap();
    let before_len = filters.len();
    match filters.push(small_filter(7, "second")) {
        Err(Error::UidCollision(uid)) => assert_eq!(uid.index, 7),
        other => panic!("expected a collision, got {:?}", other),
    }
    assert_eq!(filters.len(), before_len);
    let kept = filters.get(FilterUid { index: 7 }).unwrap();
    assert_eq!(kept.spec().name().as_str(), "first");
}

#[test]
fn remove_unknown_uid() {
    let mut filters = Filters::new();
    filters.push(small_filter(1, "one")).unwrap();
    match filters.remove(FilterUid { index: 2 }) {
        Err(Error::UnknownUid(uid)) => assert_eq!(uid.index, 2),
        other => panic!("expected an unknown-identifier error, got {:?}", other),
    }
    assert_eq!(Error::UnknownUid(FilterUid { index: 2 }).kind(), ErrorKind::Consistency);
    filters.remove(FilterUid { index: 1 }).unwrap();
    assert_eq!(filters.len(), 0);
}

fn alloc_sized(uid: u64, size: u64) -> Alloc {
    Alloc::new(uid, size, SinceStart::from_nanos(0), vec![])
}

#[test]
fn find_match_follows_registration_order() {
    let mut filters = Filters::new();
    let mut big = small_filter(1, "big");
    big.insert(SubFilter::new(
        SubFilterUid { index: 1 },
        RawSubFilter::Size(SizeFilter::Cmp { cmp: Cmp::Ge, val: 100 }),
    ))
    .unwrap();
    let mut huge = small_filter(2, "huge");
    huge.insert(SubFilter::new(
        SubFilterUid { index: 1 },
        RawSubFilter::Size(SizeFilter::Cmp { cmp: Cmp::Ge, val: 1000 }),
    ))
    .unwrap();
    filters.push(big).unwrap();
    filters.push(huge).unwrap();
    let now = SinceStart::from_nanos(0);
    // The first registered filter wins, even when both match.
    assert_eq!(
        filters.find_match(now, &alloc_sized(1, 5000)),
        Some(FilterUid { index: 1 })
    );
    assert_eq!(
        filters.find_match(now, &alloc_sized(2, 100)),
        Some(FilterUid { index: 1 })
    );
    // No filter matches: the catch-all line.
    assert_eq!(filters.find_match(now, &alloc_sized(3, 99)), None);
    assert_eq!(filters.find_dead_match(&alloc_sized(3, 99)), None);
}

#[test]
fn filter_conjunction() {
    let mut f = small_filter(1, "both");
    f.insert(SubFilter::new(
        SubFilterUid { index: 1 },
        RawSubFilter::Size(SizeFilter::Cmp { cmp: Cmp::Ge, val: 10 }),
    ))
    .unwrap();
    f.insert(SubFilter::new(
        SubFilterUid { index: 2 },
        RawSubFilter::Label(LabelFilter::contain(vec![LabelSpec::Anything])),
    ))
    .unwrap();
    assert!(f.matches(&alloc_sized(1, 10)));
    assert!(!f.matches(&alloc_sized(2, 9)));
}

#[test]
fn sub_filter_operations() {
    let mut f = small_filter(1, "subs");
    // A fresh sub-filter gets an unused identifier and the default predicate.
    let r = filter_update(&mut f, FilterMsg::AddNew).unwrap();
    assert!(r);
    assert!(f.edited());
    assert_eq!(f.subs().len(), 1);
    let sub_uid = f.subs()[0].uid();
    assert_eq!(f.subs()[0].kind(), FilterKind::Size);
    // Replacing by identifier.
    let replacement = SubFilter::new(
        sub_uid,
        RawSubFilter::Label(LabelFilter::exclude(vec![LabelSpec::Anything])),
    );
    filter_update(&mut f, FilterMsg::Sub(replacement)).unwrap();
    assert_eq!(f.subs()[0].kind(), FilterKind::Label);
    // Replacing an unknown identifier fails.
    let stranger = SubFilter::new(
        SubFilterUid { index: sub_uid.index + 1 },
        RawSubFilter::Size(SizeFilter::Cmp { cmp: Cmp::Lt, val: 1 }),
    );
    match filter_update(&mut f, FilterMsg::Sub(stranger)) {
        Err(Error::UnknownSubUid(_)) => {}
        other => panic!("expected an unknown-sub-filter error, got {:?}", other),
    }
    // Removing.
    filter_update(&mut f, FilterMsg::RmSub(sub_uid)).unwrap();
    assert_eq!(f.subs().len(), 0);
    match filter_update(&mut f, FilterMsg::RmSub(sub_uid)) {
        Err(Error::UnknownSubUid(_)) => {}
        other => panic!("expected an unknown-sub-filter error, got {:?}", other),
    }
}

#[test]
fn change_name_and_color() {
    let mut filters = Filters::new();
    filters.push(small_filter(1, "one")).unwrap();
    match filters.change_name(Some(FilterUid { index: 1 }), String::new()) {
        Err(Error::EmptyName) => {}
        other => panic!("expected an empty-name error, got {:?}", other),
    }
    filters
        .change_name(Some(FilterUid { index: 1 }), "renamed".to_string())
        .unwrap();
    let f = filters.get(FilterUid { index: 1 }).unwrap();
    assert_eq!(f.spec().name().as_str(), "renamed");
    assert!(f.spec().edited());
    filters
        .change_color(None, "#010203".to_string())
        .unwrap();
    assert_eq!(filters.catch_all().color(), Color::new(1, 2, 3));
    match filters.change_color(None, "nope".to_string()) {
        Err(Error::IllegalColor(_)) => {}
        other => panic!("expected an illegal-color error, got {:?}", other),
    }
    assert!(filters.edited());
    let (_catch_all, saved) = filters.save();
    assert_eq!(saved.len(), 1);
    assert!(!filters.edited());
}

#[test]
fn registry_line_uids() {
    let mut filters = Filters::new();
    filters.push(small_filter(4, "four")).unwrap();
    let uids = filters.line_uids();
    assert_eq!(
        uids,
        vec![
            LineUid::Everything,
            LineUid::CatchAll,
            LineUid::Filter(FilterUid { index: 4 }),
        ]
    );
}
