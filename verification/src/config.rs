//! The filter configuration wire form: plain values ready for persistence
//! or transmission, and the verified rendering and parsing between them and
//! live filters.
//!
//! A label specification travels as a string: the literal `...` denotes the
//! wildcard, a string of the exact form `#"<body>"#` denotes a regex whose
//! pattern is `<body>`, anything else a literal label value; malformed
//! delimiters yield an `IllegalRegex` error. A color travels as its
//! `#rrggbb` string.

use crate::err::{Error, Res};
use crate::filter::label::{LabelFilter, LabelSpec, LabelSpecModel};
use crate::filter::size::SizeFilter;
use crate::filter::{label, raw_model, Color, Filter, RawSubFilter, RawSubFilterModel, SubFilter};
use crate::text::push_char;
use crate::uid::{FilterUid, SubFilterUid};
use vstd::prelude::*;
use vstd::string::{StrSliceExecFns, StringExecFns};

verus! {

/// The wire form of a sub-filter predicate.
#[derive(Debug)]
pub enum RawSubConfig {
    /// A size predicate, already plain.
    Size(SizeFilter),
    /// A label predicate: its polarity and its specification strings.
    Label {
        /// True for the *exclude* polarity.
        exclude: bool,
        /// The specification strings, in order.
        specs: Vec<String>,
    },
}

/// The wire form of a sub-filter.
#[derive(Debug)]
pub struct SubConfig {
    /// Identity of the sub-filter.
    pub uid: u64,
    /// The predicate.
    pub raw: RawSubConfig,
}

/// The wire form of a filter configuration: identity, display name, display
/// color and sub-filters; the transient edited flag does not travel.
#[derive(Debug)]
pub struct FilterConfig {
    /// Identity of the filter.
    pub uid: u64,
    /// Display name.
    pub name: String,
    /// Display color, as an `#rrggbb` string.
    pub color: String,
    /// The sub-filters, in order.
    pub subs: Vec<SubConfig>,
}

/// The model of a sub-filter predicate on the wire.
pub enum RawSubConfigModel {
    /// A size predicate.
    Size(SizeFilter),
    /// A label predicate: its polarity and its specification strings.
    Label(bool, Seq<Seq<char>>),
}

/// The model of a sub-filter on the wire.
pub struct SubConfigModel {
    /// Identity of the sub-filter.
    pub uid: u64,
    /// The predicate.
    pub raw: RawSubConfigModel,
}

/// The model of a filter configuration on the wire.
pub struct ConfigModel {
    /// Identity of the filter.
    pub uid: u64,
    /// Display name.
    pub name: Seq<char>,
    /// Display color string.
    pub color: Seq<char>,
    /// The sub-filters, in order.
    pub subs: Seq<SubConfigModel>,
}

impl View for RawSubConfig {
    type V = RawSubConfigModel;

    open spec fn view(&self) -> RawSubConfigModel {
        match self {
            RawSubConfig::Size(sf) => RawSubConfigModel::Size(*sf),
            RawSubConfig::Label { exclude, specs } => RawSubConfigModel::Label(
                *exclude,
                specs.deep_view(),
            ),
        }
    }
}

impl View for SubConfig {
    type V = SubConfigModel;

    open spec fn view(&self) -> SubConfigModel {
        SubConfigModel { uid: self.uid, raw: self.raw@ }
    }
}

impl View for FilterConfig {
    type V = ConfigModel;

    open spec fn view(&self) -> ConfigModel {
        ConfigModel {
            uid: self.uid,
            name: self.name@,
            color: self.color@,
            subs: self.subs@.map_values(|sc: SubConfig| sc@),
        }
    }
}

/// The string a label specification travels as.
pub open spec fn spec_string_of(m: LabelSpecModel) -> Seq<char> {
    match m {
        LabelSpecModel::Anything => "..."@,
        LabelSpecModel::Value(s) => s,
        LabelSpecModel::Regex(p) => seq!['#', '"'] + p + seq!['"', '#'],
    }
}

/// A label specification that rendering and parsing can carry over exactly:
/// a value must not read as the wildcard literal nor open like a regex, and
/// a regex pattern must be one the regex engine accepts.
pub open spec fn spec_round_trippable(m: LabelSpecModel) -> bool {
    match m {
        LabelSpecModel::Anything => true,
        LabelSpecModel::Value(s) => s != "..."@ && !LabelSpec::regex_shaped(s),
        LabelSpecModel::Regex(p) => label::regex_valid(p),
    }
}

/// Parsing the string of a round-trippable specification yields the
/// specification again.
pub proof fn lemma_label_spec_round_trip(m: LabelSpecModel)
    requires
        spec_round_trippable(m),
    ensures
        LabelSpec::spec_new(spec_string_of(m)) == Ok::<LabelSpecModel, ()>(m),
{
    reveal_strlit("...");
    match m {
        LabelSpecModel::Anything => {
            assert(!LabelSpec::regex_shaped("..."@));
        },
        LabelSpecModel::Value(s) => {
        },
        LabelSpecModel::Regex(p) => {
            let t = spec_string_of(m);
            assert(t.len() == p.len() + 4);
            assert(t[0] == '#' && t[1] == '"');
            assert(t[t.len() - 2] == '"' && t[t.len() - 1] == '#');
            assert(t.subrange(2, t.len() - 2) =~= p);
        },
    }
}

/// The wire form of a filter, as a model: the identity, the name, the
/// rendered color, and each sub-filter with sizes as they stand and label
/// predicates as strings.
pub open spec fn render_filter(f: Filter) -> ConfigModel {
    ConfigModel {
        uid: crate::filter::fuid(f).index,
        name: f.spec.name@,
        color: crate::filter::color_chars(f.spec.color),
        subs: f.subs@.map_values(
            |sub: SubFilter|
                SubConfigModel {
                    uid: sub.uid.index,
                    raw: match raw_model(sub.raw) {
                        RawSubFilterModel::Size(sf) => RawSubConfigModel::Size(sf),
                        RawSubFilterModel::Label(kind, specs) => RawSubConfigModel::Label(
                            kind is Exclude,
                            specs.map_values(|sm: LabelSpecModel| spec_string_of(sm)),
                        ),
                    },
                },
        ),
    }
}

/// What parsing one wire sub-filter yields: a size predicate must keep its
/// bounds ordered, every label string must parse.
pub open spec fn parse_sub(sm: SubConfigModel) -> Result<(u64, RawSubFilterModel), ()> {
    match sm.raw {
        RawSubConfigModel::Size(sf) => if sf.wf() {
            Ok((sm.uid, RawSubFilterModel::Size(sf)))
        } else {
            Err(())
        },
        RawSubConfigModel::Label(exclude, specs) => {
            if forall|i: int| 0 <= i < specs.len() ==> LabelSpec::spec_new(#[trigger] specs[i]) is Ok {
                Ok(
                    (
                        sm.uid,
                        RawSubFilterModel::Label(
                            if exclude {
                                label::Kind::Exclude
                            } else {
                                label::Kind::Contain
                            },
                            specs.map_values(|s: Seq<char>| LabelSpec::spec_new(s)->Ok_0),
                        ),
                    ),
                )
            } else {
                Err(())
            }
        },
    }
}

/// What parsing a wire configuration yields: the name must not be empty,
/// the color must be a well-formed `#rrggbb` string, and every sub-filter
/// must parse.
pub open spec fn parse_config(cm: ConfigModel) -> Result<
    (u64, Seq<char>, Color, Seq<(u64, RawSubFilterModel)>),
    (),
> {
    if cm.name.len() == 0 {
        Err(())
    } else if !Color::parseable(cm.color) {
        Err(())
    } else if forall|i: int| 0 <= i < cm.subs.len() ==> parse_sub(#[trigger] cm.subs[i]) is Ok {
        Ok(
            (
                cm.uid,
                cm.name,
                Color::spec_parse(cm.color),
                cm.subs.map_values(|sm: SubConfigModel| parse_sub(sm)->Ok_0),
            ),
        )
    } else {
        Err(())
    }
}

/// A filter whose wire form parses back to it: a non-empty name, ordered
/// size bounds, and round-trippable label specifications.
pub open spec fn filter_round_trippable(f: Filter) -> bool {
    &&& f.wf()
    &&& f.spec.name@.len() > 0
    &&& forall|i: int|
        0 <= i < f.subs@.len() ==> match raw_model(#[trigger] f.subs@[i].raw) {
            RawSubFilterModel::Size(sf) => sf.wf(),
            RawSubFilterModel::Label(_, specs) => forall|q: int|
                0 <= q < specs.len() ==> spec_round_trippable(#[trigger] specs[q]),
        }
}

/// Rendering a filter to its wire form and parsing it back yields the same
/// identity, name, color and sub-filters; only the transient edited flag is
/// lost.
pub proof fn lemma_config_round_trip(f: Filter)
    requires
        filter_round_trippable(f),
    ensures
        parse_config(render_filter(f)) matches Ok(pm) && pm.0 == crate::filter::fuid(f).index
            && pm.1 == f.spec.name@ && pm.2 == f.spec.color && pm.3.len() == f.subs@.len() && (
        forall|i: int|
            0 <= i < f.subs@.len() ==> #[trigger] pm.3[i] == (
                f.subs@[i].uid.index,
                raw_model(f.subs@[i].raw),
            )),
{
    let cm = render_filter(f);
    crate::filter::lemma_color_round_trip(f.spec.color);
    assert forall|i: int| 0 <= i < cm.subs.len() implies parse_sub(#[trigger] cm.subs[i]) is Ok
        && parse_sub(cm.subs[i])->Ok_0 == (
        f.subs@[i].uid.index,
        raw_model(f.subs@[i].raw),
    ) by {
        let sub = f.subs@[i];
        assert(cm.subs[i] == SubConfigModel {
            uid: sub.uid.index,
            raw: match raw_model(sub.raw) {
                RawSubFilterModel::Size(sf) => RawSubConfigModel::Size(sf),
                RawSubFilterModel::Label(kind, specs) => RawSubConfigModel::Label(
                    kind is Exclude,
                    specs.map_values(|sm: LabelSpecModel| spec_string_of(sm)),
                ),
            },
        });
        match raw_model(sub.raw) {
            RawSubFilterModel::Size(sf) => {
                assert(sf.wf());
            },
            RawSubFilterModel::Label(kind, specs) => {
                let strs = specs.map_values(|sm: LabelSpecModel| spec_string_of(sm));
                assert forall|q: int|
                    0 <= q < strs.len() implies LabelSpec::spec_new(#[trigger] strs[q]) is Ok by {
                    assert(spec_round_trippable(specs[q]));
                    lemma_label_spec_round_trip(specs[q]);
                }
                assert(strs.map_values(|s: Seq<char>| LabelSpec::spec_new(s)->Ok_0) =~= specs) by {
                    assert forall|q: int|
                        0 <= q < strs.len() implies LabelSpec::spec_new(#[trigger] strs[q])->Ok_0
                            == specs[q] by {
                        lemma_label_spec_round_trip(specs[q]);
                    }
                }
                let parsed_kind = if kind is Exclude {
                    label::Kind::Exclude
                } else {
                    label::Kind::Contain
                };
                assert(parsed_kind == kind);
            },
        }
    }
    assert(parse_config(cm) is Ok);
    let pm = parse_config(cm)->Ok_0;
    assert(pm.3.len() == f.subs@.len());
    assert forall|i: int|
        0 <= i < f.subs@.len() implies #[trigger] pm.3[i] == (
        f.subs@[i].uid.index,
        raw_model(f.subs@[i].raw),
    ) by {
        assert(pm.3[i] == parse_sub(cm.subs[i])->Ok_0);
    }
}

/// The string a label specification travels as, computed.
pub fn render_label_spec(spec: &LabelSpec) -> (r: String)
    ensures
        r@ == spec_string_of(spec@),
{
    match spec {
        LabelSpec::Anything => {
            let mut s = String::new();
            s.append("...");
            s
        },
        LabelSpec::Value(v) => v.clone(),
        LabelSpec::Regex(p) => {
            let mut s = String::new();
            push_char(&mut s, '#');
            push_char(&mut s, '"');
            s.append(p.as_str());
            push_char(&mut s, '"');
            push_char(&mut s, '#');
            proof {
                assert(s@ =~= spec_string_of(spec@));
            }
            s
        },
    }
}

impl Filter {
    /// The wire form of this filter.
    pub fn to_config(&self) -> (r: FilterConfig)
        requires
            self.wf(),
        ensures
            r@ == render_filter(*self),
    {
        let mut subs: Vec<SubConfig> = Vec::new();
        let mut i: usize = 0;
        while i < self.subs.len()
            invariant
                self.wf(),
                i <= self.subs@.len(),
                subs@.len() == i,
                forall|q: int|
                    0 <= q < i ==> (#[trigger] subs@[q])@ == render_filter(*self).subs[q],
            decreases self.subs@.len() - i,
        {
            let sub = &self.subs[i];
            let raw = match &sub.raw {
                RawSubFilter::Size(sf) => RawSubConfig::Size(*sf),
                RawSubFilter::Label(lf) => {
                    let exclude = match lf.kind() {
                        label::Kind::Exclude => true,
                        label::Kind::Contain => false,
                    };
                    let lf_specs = lf.specs();
                    let mut strs: Vec<String> = Vec::new();
                    let mut q: usize = 0;
                    while q < lf_specs.len()
                        invariant
                            lf_specs@ == lf.spec_specs(),
                            q <= lf_specs@.len(),
                            strs@.len() == q,
                            forall|w: int|
                                0 <= w < q ==> (#[trigger] strs@[w])@ == spec_string_of(
                                    lf_specs@[w]@,
                                ),
                        decreases lf_specs@.len() - q,
                    {
                        strs.push(render_label_spec(&lf_specs[q]));
                        q += 1;
                    }
                    proof {
                        assert(strs.deep_view() =~= lf.models().map_values(
                            |sm: LabelSpecModel| spec_string_of(sm),
                        ));
                    }
                    RawSubConfig::Label { exclude, specs: strs }
                },
            };
            let cfg = SubConfig { uid: sub.uid.index, raw };
            proof {
                assert(cfg@ == render_filter(*self).subs[i as int]);
            }
            subs.push(cfg);
            i += 1;
        }
        let r = FilterConfig {
            uid: self.uid().index,
            name: self.spec.name.clone(),
            color: self.spec.color.to_str(),
            subs,
        };
        proof {
            assert(r@.subs =~= render_filter(*self).subs);
            assert(r@ == render_filter(*self));
        }
        r
    }
}

/// Builds the filter a wire configuration denotes; an empty name, a
/// malformed color, unordered size bounds and an illegal label string are
/// refused, exactly as `parse_config` refuses them.
pub fn filter_of_config(cfg: &FilterConfig) -> (r: Res<Filter>)
    ensures
        match r {
            Ok(f) => parse_config(cfg@) matches Ok(pm) && f.wf() && crate::filter::fuid(f).index
                == pm.0 && f.spec.name@ == pm.1 && f.spec.color == pm.2 && f.spec.edited == false
                && f.edited == false && f.subs@.len() == pm.3.len() && (forall|i: int|
                0 <= i < f.subs@.len() ==> (#[trigger] f.subs@[i]).uid.index == pm.3[i].0
                    && raw_model(f.subs@[i].raw) == pm.3[i].1),
            Err(e) => parse_config(cfg@) is Err && match e {
                Error::EmptyName => cfg.name@.len() == 0,
                Error::IllegalColor(t) => t@ == cfg.color@ && !Color::parseable(cfg.color@),
                Error::BadRange(lb, ub) => lb > ub,
                Error::IllegalRegex(t) => LabelSpec::spec_new(t@) is Err,
                _ => false,
            },
        },
{
    if cfg.name.as_str().unicode_len() == 0 {
        return Err(Error::EmptyName);
    }
    let color = Color::from_str(cfg.color.as_str())?;
    let mut subs: Vec<SubFilter> = Vec::new();
    let mut i: usize = 0;
    while i < cfg.subs.len()
        invariant
            cfg.name@.len() > 0,
            Color::parseable(cfg.color@),
            i <= cfg.subs@.len(),
            subs@.len() == i,
            forall|q: int| 0 <= q < i ==> parse_sub(#[trigger] cfg@.subs[q]) is Ok,
            forall|q: int|
                0 <= q < i ==> (#[trigger] subs@[q]).uid.index == parse_sub(cfg@.subs[q])->Ok_0.0
                    && raw_model(subs@[q].raw) == parse_sub(cfg@.subs[q])->Ok_0.1,
        decreases cfg.subs@.len() - i,
    {
        let sc = &cfg.subs[i];
        proof {
            assert(sc@ == cfg@.subs[i as int]);
        }
        let raw = match &sc.raw {
            RawSubConfig::Size(sf) => {
                match sf {
                    SizeFilter::In { lb, ub } => {
                        if *lb > *ub {
                            proof {
                                assert(parse_sub(cfg@.subs[i as int]) is Err);
                            }
                            return Err(Error::BadRange(*lb, *ub));
                        }
                    },
                    SizeFilter::Cmp { .. } => {},
                }
                RawSubFilter::Size(*sf)
            },
            RawSubConfig::Label { exclude, specs } => {
                let ghost strs = specs.deep_view();
                let ghost ex0 = *exclude;
                proof {
                    assert(cfg@.subs[i as int].raw == RawSubConfigModel::Label(ex0, strs));
                }
                let mut parsed: Vec<LabelSpec> = Vec::new();
                let mut q: usize = 0;
                while q < specs.len()
                    invariant
                        cfg.name@.len() > 0,
                        Color::parseable(cfg.color@),
                        i < cfg.subs@.len(),
                        cfg@.subs[i as int].raw == RawSubConfigModel::Label(ex0, strs),
                        strs == specs.deep_view(),
                        q <= specs@.len(),
                        parsed@.len() == q,
                        forall|w: int|
                            0 <= w < q ==> LabelSpec::spec_new(#[trigger] strs[w]) is Ok,
                        forall|w: int|
                            0 <= w < q ==> (#[trigger] parsed@[w])@ == LabelSpec::spec_new(
                                strs[w],
                            )->Ok_0,
                    decreases specs@.len() - q,
                {
                    let spec = match LabelSpec::new(specs[q].as_str()) {
                        Ok(sp) => sp,
                        Err(e) => {
                            proof {
                                assert(LabelSpec::spec_new(strs[q as int]) is Err);
                                assert(parse_sub(cfg@.subs[i as int]) is Err);
                                assert(parse_config(cfg@) is Err);
                            }
                            return Err(e);
                        },
                    };
                    parsed.push(spec);
                    q += 1;
                }
                let kind = if *exclude {
                    label::Kind::Exclude
                } else {
                    label::Kind::Contain
                };
                let lf = LabelFilter::of_kind(kind, parsed);
                proof {
                    assert(lf.models() =~= strs.map_values(
                        |t: Seq<char>| LabelSpec::spec_new(t)->Ok_0,
                    ));
                }
                RawSubFilter::Label(lf)
            },
        };
        let sub = SubFilter { uid: SubFilterUid { index: sc.uid }, raw };
        proof {
            assert(parse_sub(cfg@.subs[i as int]) is Ok);
            assert(sub.uid.index == parse_sub(cfg@.subs[i as int])->Ok_0.0);
            assert(raw_model(sub.raw) == parse_sub(cfg@.subs[i as int])->Ok_0.1);
        }
        subs.push(sub);
        i += 1;
    }
    let mut f = Filter::new(FilterUid { index: cfg.uid }, cfg.name.clone(), color);
    f.subs = subs;
    proof {
        assert(parse_config(cfg@) is Ok);
    }
    Ok(f)
}

} // verus!
