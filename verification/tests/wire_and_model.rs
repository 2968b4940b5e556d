//! The configuration wire form, the trace model, time arithmetic and the
//! footer state.

use memchart::chart::{TimeChart, Value};
use memchart::config::{filter_of_config, FilterConfig, RawSubConfig, SubConfig};
use memchart::ctf::event::Kind as EventKind;
use memchart::ctf::header::{Ctf, Header, Packet};
use memchart::ctf::{CacheCheck, Span};
use memchart::err::{Error, ErrorKind};
use memchart::filter::label::LabelSpec;
use memchart::filter::size::{Cmp, SizeFilter};
use memchart::filter::label::LabelFilter;
use memchart::filter::{Color, Filter, FilterKind, RawSubFilter, SubFilter};
use memchart::footer::{Footer, FooterMsg, FooterTab, NormalFooterTab};
use memchart::time::{Date, SinceStart};
use memchart::uid::{ChartUid, FilterUid, LineUid, SubFilterUid};

#[test]
fn filter_config_round_trip() {
    // Serializing a filter configuration and parsing it back yields an equal
    // filter: identity, name, color and sub-filters; the edited flag is
    // transient and does not travel.
    let mut f = Filter::new(
        FilterUid { index: 9 },
        "my filter".to_string(),
        Color::new(0xab, 0xcd, 0xef),
    );
    f.insert(SubFilter::new(
        SubFilterUid { index: 1 },
        RawSubFilter::Size(SizeFilter::between(10, 20).unwrap()),
    ))
    .unwrap();
    f.insert(SubFilter::new(
        SubFilterUid { index: 2 },
        RawSubFilter::Label(LabelFilter::contain(vec![
            LabelSpec::Anything,
            LabelSpec::new("exact").unwrap(),
            LabelSpec::new("#\"^a+$\"#").unwrap(),
        ])),
    ))
    .unwrap();
    f.set_edited();

    let cfg = f.to_config();
    assert_eq!(cfg.uid, 9);
    assert_eq!(cfg.name, "my filter");
    assert_eq!(cfg.color, "#abcdef");

    let back = filter_of_config(&cfg).unwrap();
    assert_eq!(back.uid(), FilterUid { index: 9 });
    assert_eq!(back.spec().name().as_str(), "my filter");
    assert_eq!(back.spec().color(), Color::new(0xab, 0xcd, 0xef));
    assert!(!back.edited());
    assert!(!back.spec().edited());
    assert_eq!(back.subs().len(), 2);
    assert_eq!(back.subs()[0].kind(), FilterKind::Size);
    assert_eq!(back.subs()[1].kind(), FilterKind::Label);
    // The regex survived the trip: it still matches through the filter.
    let alloc = memchart::allocs::Alloc::new(
        1,
        15,
        SinceStart::from_nanos(0),
        vec!["x".to_string(), "exact".to_string(), "aaa".to_string()],
    );
    assert!(back.matches(&alloc));
}

#[test]
fn filter_config_rejections() {
    let good = FilterConfig {
        uid: 1,
        name: "ok".to_string(),
        color: "#000000".to_string(),
        subs: vec![],
    };
    assert!(filter_of_config(&good).is_ok());
    let empty_name = FilterConfig { name: String::new(), ..config_like(&good) };
    match filter_of_config(&empty_name) {
        Err(Error::EmptyName) => {}
        other => panic!("expected an empty-name error, got {:?}", other),
    }
    let bad_color = FilterConfig { color: "#zzzzzz".to_string(), ..config_like(&good) };
    match filter_of_config(&bad_color) {
        Err(Error::IllegalColor(_)) => {}
        other => panic!("expected an illegal-color error, got {:?}", other),
    }
    let bad_range = FilterConfig {
        subs: vec![SubConfig { uid: 1, raw: RawSubConfig::Size(SizeFilter::In { lb: 9, ub: 3 }) }],
        ..config_like(&good)
    };
    match filter_of_config(&bad_range) {
        Err(Error::BadRange(9, 3)) => {}
        other => panic!("expected a bad-range error, got {:?}", other),
    }
    let bad_regex = FilterConfig {
        subs: vec![SubConfig {
            uid: 1,
            raw: RawSubConfig::Label { exclude: false, specs: vec!["#\"broken".to_string()] },
        }],
        ..config_like(&good)
    };
    match filter_of_config(&bad_regex) {
        Err(Error::IllegalRegex(_)) => {}
        other => panic!("expected an illegal-regex error, got {:?}", other),
    }
}

fn config_like(c: &FilterConfig) -> FilterConfig {
    FilterConfig { uid: c.uid, name: c.name.clone(), color: c.color.clone(), subs: vec![] }
}

#[test]
fn wildcard_string_round_trip() {
    // The wildcard travels as the literal `...`.
    let cfg = FilterConfig {
        uid: 2,
        name: "wild".to_string(),
        color: "#102030".to_string(),
        subs: vec![SubConfig {
            uid: 1,
            raw: RawSubConfig::Label { exclude: true, specs: vec!["...".to_string()] },
        }],
    };
    let f = filter_of_config(&cfg).unwrap();
    match f.subs()[0].raw() {
        RawSubFilter::Label(lf) => {
            assert!(lf.specs()[0].matches_anything());
        }
        other => panic!("expected a label predicate, got {:?}", other),
    }
}

#[test]
fn event_kind_codes_round_trip() {
    for code in [0u32, 1, 2, 3, 4, 101, 108, 116] {
        let kind = EventKind::from_code(code).unwrap();
        assert_eq!(kind.code(), code);
    }
    assert_eq!(EventKind::from_code(2).unwrap(), EventKind::Alloc);
    assert_eq!(EventKind::from_code(101).unwrap(), EventKind::SmallAlloc(1));
    assert_eq!(EventKind::from_code(116).unwrap(), EventKind::SmallAlloc(16));
    for code in [5u32, 99, 100, 117, 1000] {
        match EventKind::from_code(code) {
            Err(Error::BadEventCode(c)) => assert_eq!(c, code),
            other => panic!("expected a bad-event-code error, got {:?}", other),
        }
    }
    assert!(EventKind::Info.is_info());
    assert!(!EventKind::Alloc.is_info());
}

#[test]
fn spans() {
    let span = Span::new(3, 8).unwrap();
    assert!(span.contains(3));
    assert!(span.contains(8));
    assert!(!span.contains(9));
    assert!(span.contains_ref(&5));
    match Span::new(8, 3) {
        Err(Error::BadRange(8, 3)) => {}
        other => panic!("expected a bad-range error, got {:?}", other),
    }
    let pretty = span.pretty_time();
    assert_eq!(pretty.begin.nanos, 3_000_000);
    assert_eq!(pretty.end.nanos, 8_000_000);
}

#[test]
fn trace_headers() {
    let header = Header {
        content_size: 10,
        total_content_size: 20,
        timestamp: Span { begin: 0, end: 5 },
        alloc_id: Span { begin: 1, end: 9 },
        pid: 42,
        version: 2,
    };
    assert!(header.has_context());
    let ctf = Ctf::new(header, true);
    assert!(ctf.is_be());
    let check = CacheCheck { ix: 1, pred: 2, value: 3 };
    let packet = Packet::new(0, header, check);
    assert_eq!(packet.header().pid, 42);
    assert_eq!(packet.cache_check().value, 3);
    let older = Header { version: 1, ..header };
    assert!(!older.has_context());
}

#[test]
fn time_arithmetic() {
    assert_eq!(SinceStart::from_nano_timestamp(1, 2).nanos, 1_000_000_002);
    assert_eq!(SinceStart::from_nano_timestamp(u64::MAX, 5).nanos, u64::MAX);
    let a = SinceStart::from_nanos(10);
    let b = SinceStart::from_nanos(3);
    assert_eq!(a.sat_sub(&b).nanos, 7);
    assert_eq!(b.sat_sub(&a).nanos, 0);
    assert!(b.lt(&a));
    assert_eq!(a.div(2).nanos, 5);
    let d = Date::from_timestamp(10, 999_999_999);
    let e = d.copy_add(SinceStart::from_nanos(1));
    assert_eq!(e.timestamp(), (11, 0));
    assert_eq!(d.add_one_nano().timestamp(), (11, 0));
    assert_eq!(e.sub_one_nano().timestamp(), (10, 999_999_999));
    assert!(d.lt(&e));
    assert!(d.le(&e));
}

#[test]
fn footer_tabs_toggle() {
    let mut footer = Footer::new();
    assert!(!footer.is_expanded());
    let tab = FooterTab::Normal(NormalFooterTab::Info);
    assert_eq!(footer.update(FooterMsg::ToggleTab(tab)).unwrap(), true);
    assert!(footer.is_expanded());
    assert_eq!(footer.active, Some(tab));
    // Toggling the active tab collapses the footer.
    footer.update(FooterMsg::ToggleTab(tab)).unwrap();
    assert!(!footer.is_expanded());
    // Removing the active filter falls back to the aggregate line.
    let filter_tab = FooterTab::filter(LineUid::Filter(FilterUid { index: 3 }));
    footer.update(FooterMsg::ToggleTab(filter_tab)).unwrap();
    assert_eq!(
        footer.update(FooterMsg::Removed(FilterUid { index: 3 })).unwrap(),
        true
    );
    assert_eq!(footer.active, Some(FooterTab::Filter(LineUid::Everything)));
    assert_eq!(
        footer.update(FooterMsg::Removed(FilterUid { index: 3 })).unwrap(),
        false
    );
    assert_eq!(filter_tab.get_filter(), Some(LineUid::Filter(FilterUid { index: 3 })));
    assert_eq!(filter_tab.get_normal_tab(), None);
    assert_eq!(NormalFooterTab::all(), vec![NormalFooterTab::Info]);
}

#[test]
fn chart_visibility() {
    let mut chart = TimeChart::default("chart_0".to_string(), ChartUid { index: 0 });
    assert_eq!(chart.value, Value::TotalSize);
    assert_eq!(chart.uid(), &ChartUid { index: 0 });
    // Expanding a collapsed chart changes it; expanding again does not.
    assert!(chart.expand());
    assert!(!chart.expand());
    assert!(chart.collapse());
    assert!(!chart.collapse());
    let other = TimeChart::highest_lifetime("chart_1".to_string(), ChartUid { index: 1 });
    assert_eq!(other.value, Value::HighestLifetime);
    assert_eq!(other.value.desc(), "highest lifetime");
}

#[test]
fn error_kinds() {
    assert_eq!(Error::Source("boom".to_string()).kind(), ErrorKind::Source);
    assert_eq!(Error::InternalPrecondition.kind(), ErrorKind::Internal);
    assert_eq!(Error::UnresolvedDead(3).kind(), ErrorKind::Consistency);
    assert_eq!(Error::EmptyName.kind(), ErrorKind::Config);
}
