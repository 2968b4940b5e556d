//! Label predicates: a single-pass, non-backtracking matcher of label
//! specifications against an object's ordered label sequence.

use crate::err::{Error, Res};
use crate::text::str_eq;
use vstd::prelude::*;
use vstd::string::StrSliceExecFns;

verus! {

/// The two polarities of a label predicate.
#[derive(Debug, Clone, Copy, PartialEq, Eq, Structural)]
pub enum Kind {
    /// Retains label lists matched by the specifications.
    Contain,
    /// Retains label lists not matched by the specifications.
    Exclude,
}

impl Kind {
    /// All the kinds, in display order.
    pub fn all() -> (r: Vec<Kind>)
        ensures
            r@ == seq![Kind::Contain, Kind::Exclude],
    {
        let mut v: Vec<Kind> = Vec::new();
        v.push(Kind::Contain);
        v.push(Kind::Exclude);
        proof {
            assert(v@ =~= seq![Kind::Contain, Kind::Exclude]);
        }
        v
    }
}

/// Whether a pattern is accepted by the regex engine.
///
/// Acceptance depends on the pattern alone; `regex_check` decides it.
pub uninterp spec fn regex_valid(pattern: Seq<char>) -> bool;

/// Whether a regular expression matches somewhere in a text.
///
/// The outcome depends on the pattern and the text alone; `regex_is_match`
/// computes it.
pub uninterp spec fn regex_accepts(pattern: Seq<char>, text: Seq<char>) -> bool;

/// Relies on `regex::Regex::new`: whether a pattern compiles depends on the
/// pattern alone.
#[verifier::external_body]
fn regex_check(pattern: &str) -> (r: bool)
    ensures
        r == regex_valid(pattern@),
{
    regex::Regex::new(pattern).is_ok()
}

/// Relies on `regex::Regex::new` and `regex::Regex::is_match`: whether a
/// pattern matches a text depends on the pattern and the text alone; a
/// pattern that does not compile matches nothing.
#[verifier::external_body]
fn regex_is_match(pattern: &str, text: &str) -> (r: bool)
    ensures
        r == regex_accepts(pattern@, text@),
{
    match regex::Regex::new(pattern) {
        Ok(re) => re.is_match(text),
        Err(_) => false,
    }
}

/// One label specification.
#[derive(Debug)]
pub enum LabelSpec {
    /// Matches a run of arbitrary labels.
    Anything,
    /// An actual label value.
    Value(String),
    /// A regular expression, kept as its pattern.
    Regex(String),
}

/// The mathematical model of a label specification: the same shape, over
/// character sequences.
pub enum LabelSpecModel {
    /// Matches a run of arbitrary labels.
    Anything,
    /// An actual label value.
    Value(Seq<char>),
    /// A regular expression pattern.
    Regex(Seq<char>),
}

impl View for LabelSpec {
    type V = LabelSpecModel;

    open spec fn view(&self) -> LabelSpecModel {
        match self {
            LabelSpec::Anything => LabelSpecModel::Anything,
            LabelSpec::Value(s) => LabelSpecModel::Value(s@),
            LabelSpec::Regex(p) => LabelSpecModel::Regex(p@),
        }
    }
}

impl DeepView for LabelSpec {
    type V = LabelSpecModel;

    open spec fn deep_view(&self) -> LabelSpecModel {
        self.view()
    }
}

/// Whether one specification matches one label.
pub open spec fn label_matches(spec: LabelSpecModel, label: Seq<char>) -> bool {
    match spec {
        LabelSpecModel::Anything => true,
        LabelSpecModel::Value(v) => v == label,
        LabelSpecModel::Regex(p) => regex_accepts(p, label),
    }
}

/// The first index at or after `i` holding a specification that is not a
/// wildcard (`specs.len()` if there is none).
pub open spec fn next_concrete(specs: Seq<LabelSpecModel>, i: int) -> int
    decreases specs.len() - i,
{
    if i < 0 || i >= specs.len() {
        specs.len() as int
    } else if specs[i] is Anything {
        next_concrete(specs, i + 1)
    } else {
        i
    }
}

/// The greedy, non-backtracking matcher, from spec cursor `i` and label
/// cursor `j`.
///
/// A run of wildcards collapses into one; a run that reaches the end of the
/// specifications succeeds immediately; a concrete specification after a
/// wildcard may skip labels, one without a preceding wildcard must match the
/// very next label; once every specification is consumed, no label may
/// remain.
pub open spec fn check_from(
    specs: Seq<LabelSpecModel>,
    labels: Seq<Seq<char>>,
    i: int,
    j: int,
) -> bool
    decreases specs.len() - i, labels.len() - j,
        via check_from_decreases
{
    if i < 0 || i >= specs.len() {
        j == labels.len()
    } else if specs[i] is Anything {
        let k = next_concrete(specs, i);
        if k >= specs.len() {
            true
        } else {
            scan_from(specs, labels, k, j)
        }
    } else {
        if 0 <= j < labels.len() && label_matches(specs[i], labels[j]) {
            check_from(specs, labels, i + 1, j + 1)
        } else {
            false
        }
    }
}

/// Scanning for the first label at or after `j` matched by the concrete
/// specification at `k` (which follows a wildcard run); labels that fail to
/// match are discarded, and the skip point is never revisited.
pub open spec fn scan_from(
    specs: Seq<LabelSpecModel>,
    labels: Seq<Seq<char>>,
    k: int,
    j: int,
) -> bool
    decreases specs.len() - k, labels.len() - j,
{
    if k < 0 || k >= specs.len() || j < 0 || j >= labels.len() {
        false
    } else if label_matches(specs[k], labels[j]) {
        check_from(specs, labels, k + 1, j + 1)
    } else {
        scan_from(specs, labels, k, j + 1)
    }
}

/// A collapsed wildcard run ends strictly after where it starts, within
/// bounds, and at a concrete specification if it stops short of the end.
pub proof fn lemma_next_concrete(specs: Seq<LabelSpecModel>, i: int)
    requires
        0 <= i <= specs.len(),
    ensures
        i <= next_concrete(specs, i) <= specs.len(),
        next_concrete(specs, i) < specs.len() ==> !(specs[next_concrete(specs, i)] is Anything),
        forall|q: int| i <= q < next_concrete(specs, i) ==> specs[q] is Anything,
    decreases specs.len() - i,
{
    if i < specs.len() && specs[i] is Anything {
        lemma_next_concrete(specs, i + 1);
    }
}

#[via_fn]
proof fn check_from_decreases(specs: Seq<LabelSpecModel>, labels: Seq<Seq<char>>, i: int, j: int) {
    if 0 <= i < specs.len() && specs[i] is Anything {
        lemma_next_concrete(specs, i + 1);
    }
}

/// Whether the whole specification list matches the whole label list.
pub open spec fn spec_check_contain(specs: Seq<LabelSpecModel>, labels: Seq<Seq<char>>) -> bool {
    check_from(specs, labels, 0, 0)
}

/// A specification list made of wildcards alone matches any label sequence,
/// the empty one included.
pub proof fn lemma_wildcards_match_anything(specs: Seq<LabelSpecModel>, labels: Seq<Seq<char>>)
    requires
        specs.len() > 0,
        forall|i: int| 0 <= i < specs.len() ==> (#[trigger] specs[i]) is Anything,
    ensures
        spec_check_contain(specs, labels),
{
    lemma_next_concrete(specs, 0);
    assert(specs[0] is Anything);
    if next_concrete(specs, 0) < specs.len() {
        assert(!(specs[next_concrete(specs, 0)] is Anything));
    }
}

impl LabelSpec {
    /// What turning a plain string into a specification yields: the literal
    /// `...` becomes a wildcard, anything else a value.
    pub open spec fn spec_of_string(s: Seq<char>) -> LabelSpecModel {
        if s == "..."@ {
            LabelSpecModel::Anything
        } else {
            LabelSpecModel::Value(s)
        }
    }

    /// Constructor from a plain string: the literal `...` becomes a wildcard,
    /// anything else a value.
    pub fn of_string(s: &str) -> (r: LabelSpec)
        ensures
            r@ == Self::spec_of_string(s@),
    {
        if str_eq(s, "...") {
            LabelSpec::Anything
        } else {
            LabelSpec::Value(s.to_owned())
        }
    }

    /// Whether a string is shaped like a regex specification: longer than
    /// two characters and opening with the `#"` delimiter.
    pub open spec fn regex_shaped(s: Seq<char>) -> bool {
        s.len() > 2 && s[0] == '#' && s[1] == '"'
    }

    /// Whether a regex-shaped string closes with the `"#` delimiter.
    pub open spec fn regex_closed(s: Seq<char>) -> bool {
        s[s.len() - 2] == '"' && s[s.len() - 1] == '#'
    }

    /// What parsing a specification string yields.
    ///
    /// A regex-shaped string must close with `"#` and hold a pattern the
    /// regex engine accepts, else the string is an illegal regex; any other
    /// string is read as by `spec_of_string`.
    pub open spec fn spec_new(s: Seq<char>) -> Result<LabelSpecModel, ()> {
        if Self::regex_shaped(s) {
            if s.len() < 4 || !Self::regex_closed(s) {
                Err(())
            } else if regex_valid(s.subrange(2, s.len() - 2)) {
                Ok(LabelSpecModel::Regex(s.subrange(2, s.len() - 2)))
            } else {
                Err(())
            }
        } else {
            Ok(Self::spec_of_string(s))
        }
    }

    /// Parses a specification string.
    ///
    /// Returns `IllegalRegex` exactly on the strings `spec_new` refuses.
    pub fn new(label: &str) -> (r: Res<LabelSpec>)
        ensures
            match r {
                Ok(spec) => Self::spec_new(label@) == Ok::<LabelSpecModel, ()>(spec@),
                Err(e) => Self::spec_new(label@) == Err::<LabelSpecModel, ()>(()) && (
                e matches Error::IllegalRegex(t) && t@ == label@),
            },
    {
        let n = label.unicode_len();
        if n > 2 && label.get_char(0) == '#' && label.get_char(1) == '"' {
            if n < 4 || !(label.get_char(n - 2) == '"' && label.get_char(n - 1) == '#') {
                return Err(Error::IllegalRegex(label.to_owned()));
            }
            let body = label.substring_char(2, n - 2).to_owned();
            if regex_check(body.as_str()) {
                Ok(LabelSpec::Regex(body))
            } else {
                Err(Error::IllegalRegex(label.to_owned()))
            }
        } else {
            Ok(Self::of_string(label))
        }
    }

    /// True if the specification is an empty label.
    pub fn is_empty(&self) -> (r: bool)
        ensures
            r == (self@ == LabelSpecModel::Value(Seq::<char>::empty())),
    {
        match self {
            LabelSpec::Value(s) => {
                let r = s.as_str().unicode_len() == 0;
                proof {
                    if s@.len() == 0 {
                        assert(s@ =~= Seq::<char>::empty());
                    }
                }
                r
            },
            LabelSpec::Regex(_) => false,
            LabelSpec::Anything => false,
        }
    }

    /// True if the specification matches anything.
    pub fn matches_anything(&self) -> (r: bool)
        ensures
            r == (self@ is Anything),
    {
        match self {
            LabelSpec::Anything => true,
            LabelSpec::Value(_) => false,
            LabelSpec::Regex(_) => false,
        }
    }

    /// Whether this specification matches one label.
    pub fn apply(&self, label: &str) -> (r: bool)
        ensures
            r == label_matches(self@, label@),
    {
        match self {
            LabelSpec::Anything => true,
            LabelSpec::Value(v) => str_eq(v.as_str(), label),
            LabelSpec::Regex(p) => regex_is_match(p.as_str(), label),
        }
    }
}

impl Default for LabelSpec {
    /// The default specification: the placeholder label value.
    fn default() -> (r: Self)
        ensures
            r@ == LabelSpecModel::Value("my label"@),
    {
        LabelSpec::Value("my label".to_owned())
    }
}

/// The first non-wildcard index, computed.
fn next_concrete_exec(specs: &[LabelSpec], i: usize) -> (k: usize)
    requires
        i <= specs@.len(),
    ensures
        k == next_concrete(specs.deep_view(), i as int),
        i <= k <= specs@.len(),
        k < specs@.len() ==> !(specs.deep_view()[k as int] is Anything),
    decreases specs@.len() - i,
{
    if i == specs.len() {
        i
    } else if specs[i].matches_anything() {
        next_concrete_exec(specs, i + 1)
    } else {
        i
    }
}

/// The matcher from the cursors `i` and `j`, computed.
fn check_from_exec(specs: &[LabelSpec], labels: &[String], i: usize, j: usize) -> (r: bool)
    requires
        i <= specs@.len(),
        j <= labels@.len(),
    ensures
        r == check_from(specs.deep_view(), labels.deep_view(), i as int, j as int),
    decreases specs@.len() - i, labels@.len() - j,
{
    if i == specs.len() {
        j == labels.len()
    } else if specs[i].matches_anything() {
        let k = next_concrete_exec(specs, i);
        if k == specs.len() {
            true
        } else {
            scan_from_exec(specs, labels, k, j)
        }
    } else {
        if j < labels.len() && specs[i].apply(labels[j].as_str()) {
            check_from_exec(specs, labels, i + 1, j + 1)
        } else {
            false
        }
    }
}

/// The label scan from the cursors `k` and `j`, computed.
fn scan_from_exec(specs: &[LabelSpec], labels: &[String], k: usize, j: usize) -> (r: bool)
    requires
        k < specs@.len(),
        j <= labels@.len(),
    ensures
        r == scan_from(specs.deep_view(), labels.deep_view(), k as int, j as int),
    decreases specs@.len() - k, labels@.len() - j,
{
    if j == labels.len() {
        false
    } else if specs[k].apply(labels[j].as_str()) {
        check_from_exec(specs, labels, k + 1, j + 1)
    } else {
        scan_from_exec(specs, labels, k, j + 1)
    }
}

impl Clone for LabelSpec {
    /// Cloning keeps the specification.
    fn clone(&self) -> (r: Self)
        ensures
            r == *self,
    {
        match self {
            LabelSpec::Anything => LabelSpec::Anything,
            LabelSpec::Value(s) => LabelSpec::Value(s.clone()),
            LabelSpec::Regex(p) => LabelSpec::Regex(p.clone()),
        }
    }
}

/// A label predicate: either *contain* (the labels are matched by the
/// specifications) or *exclude* (its negation).
#[derive(Debug)]
pub enum LabelFilter {
    /// Retains label lists that match the specifications.
    Contain(Vec<LabelSpec>),
    /// Retains label lists that do not match the specifications.
    Exclude(Vec<LabelSpec>),
}

/// Clones a specification vector, keeping its contents.
pub fn clone_specs(specs: &Vec<LabelSpec>) -> (r: Vec<LabelSpec>)
    ensures
        r@ == specs@,
{
    let r = specs.clone();
    proof {
        assert(r@ =~= specs@);
    }
    r
}

impl Clone for LabelFilter {
    /// Cloning keeps the predicate.
    fn clone(&self) -> (r: Self)
        ensures
            r.spec_kind() == self.spec_kind(),
            r.spec_specs() == self.spec_specs(),
    {
        match self {
            LabelFilter::Contain(specs) => LabelFilter::Contain(clone_specs(specs)),
            LabelFilter::Exclude(specs) => LabelFilter::Exclude(clone_specs(specs)),
        }
    }
}

/// Whether a label predicate holds of a label sequence.
pub open spec fn label_filter_matches(f: LabelFilter, labels: Seq<Seq<char>>) -> bool {
    match f {
        LabelFilter::Contain(specs) => spec_check_contain(specs.deep_view(), labels),
        LabelFilter::Exclude(specs) => !spec_check_contain(specs.deep_view(), labels),
    }
}

impl LabelFilter {
    /// `Contain` constructor.
    pub fn contain(specs: Vec<LabelSpec>) -> (r: Self)
        ensures
            r == LabelFilter::Contain(specs),
    {
        Self::Contain(specs)
    }

    /// `Exclude` constructor.
    pub fn exclude(specs: Vec<LabelSpec>) -> (r: Self)
        ensures
            r == LabelFilter::Exclude(specs),
    {
        Self::Exclude(specs)
    }

    /// Constructor from a kind.
    pub fn of_kind(kind: Kind, labels: Vec<LabelSpec>) -> (r: Self)
        ensures
            r == match kind {
                Kind::Contain => LabelFilter::Contain(labels),
                Kind::Exclude => LabelFilter::Exclude(labels),
            },
    {
        match kind {
            Kind::Contain => Self::Contain(labels),
            Kind::Exclude => Self::Exclude(labels),
        }
    }

    /// The filter's kind.
    pub fn kind(&self) -> (r: Kind)
        ensures
            r == self.spec_kind(),
    {
        match self {
            Self::Contain(_) => Kind::Contain,
            Self::Exclude(_) => Kind::Exclude,
        }
    }

    /// The kind of the filter.
    pub open spec fn spec_kind(&self) -> Kind {
        match self {
            Self::Contain(_) => Kind::Contain,
            Self::Exclude(_) => Kind::Exclude,
        }
    }

    /// The specifications of the filter.
    pub open spec fn spec_specs(&self) -> Seq<LabelSpec> {
        match self {
            Self::Contain(specs) => specs@,
            Self::Exclude(specs) => specs@,
        }
    }

    /// Label specifications.
    pub fn specs(&self) -> (r: &Vec<LabelSpec>)
        ensures
            r@ == self.spec_specs(),
    {
        match self {
            Self::Contain(specs) => specs,
            Self::Exclude(specs) => specs,
        }
    }

    /// Replaces the specification at an index; an empty specification
    /// removes the entry instead.
    pub fn insert(&mut self, index: usize, spec: LabelSpec)
        requires
            index < old(self).spec_specs().len(),
        ensures
            final(self).spec_kind() == old(self).spec_kind(),
            final(self).spec_specs() == if spec@ == LabelSpecModel::Value(Seq::<char>::empty()) {
                old(self).spec_specs().remove(index as int)
            } else {
                old(self).spec_specs().update(index as int, spec)
            },
    {
        let empty = spec.is_empty();
        match self {
            Self::Contain(specs) => {
                if empty {
                    specs.remove(index);
                } else {
                    specs.set(index, spec);
                }
            },
            Self::Exclude(specs) => {
                if empty {
                    specs.remove(index);
                } else {
                    specs.set(index, spec);
                }
            },
        }
    }

    /// Whether the labels of an object satisfy this predicate.
    pub fn apply(&self, labels: &[String]) -> (r: bool)
        ensures
            r == label_filter_matches(*self, labels.deep_view()),
    {
        match self {
            Self::Contain(specs) => Self::check_contain(specs.as_slice(), labels),
            Self::Exclude(specs) => !Self::check_contain(specs.as_slice(), labels),
        }
    }

    /// True if some labels verify the input specifications.
    pub fn check_contain(specs: &[LabelSpec], labels: &[String]) -> (r: bool)
        ensures
            r == spec_check_contain(specs.deep_view(), labels.deep_view()),
    {
        check_from_exec(specs, labels, 0, 0)
    }
}

impl Default for LabelFilter {
    /// The default label predicate: contain, with no specifications.
    fn default() -> (r: Self)
        ensures
            r.spec_kind() == Kind::Contain,
            r.spec_specs().len() == 0,
    {
        Self::Contain(Vec::new())
    }
}

/// An update for a label filter.
#[derive(Debug)]
pub enum Update {
    /// Change the kind of the filter.
    Kind(Kind),
    /// Add a new specification at some position.
    Add(usize),
    /// Replace the specification at some position.
    Replace(usize, String),
}

impl LabelFilter {
    /// Applies an update; the result says whether anything changed.
    ///
    /// A kind change keeps the specifications; an addition inserts the
    /// default specification at the index; a replacement parses the given
    /// string and fails, changing nothing, exactly on the strings
    /// `LabelSpec::spec_new` refuses.
    pub fn update(&mut self, update: Update) -> (r: Res<bool>)
        requires
            match update {
                Update::Kind(_) => true,
                Update::Add(index) => index <= old(self).spec_specs().len(),
                Update::Replace(index, _) => index < old(self).spec_specs().len(),
            },
        ensures
            match update {
                Update::Kind(k) => r == Res::<bool>::Ok(k != old(self).spec_kind())
                    && final(self).spec_kind() == k
                    && final(self).spec_specs() == old(self).spec_specs(),
                Update::Add(index) => r == Res::<bool>::Ok(true)
                    && final(self).spec_kind() == old(self).spec_kind()
                    && final(self).models() == old(self).models().insert(
                    index as int,
                    LabelSpecModel::Value("my label"@),
                ),
                Update::Replace(index, s) => match r {
                    Ok(changed) => changed == true && (LabelSpec::spec_new(s@) matches Ok(m)
                        && final(self).spec_kind() == old(self).spec_kind()
                        && final(self).models() == old(self).models().update(index as int, m)),
                    Err(e) => LabelSpec::spec_new(s@) is Err && *final(self) == *old(self) && (
                    e matches Error::IllegalRegex(t) && t@ == s@),
                },
            },
    {
        match update {
            Update::Kind(nu_kind) => {
                let kind = self.kind();
                if nu_kind != kind {
                    let specs = take_specs(self);
                    *self = Self::of_kind(nu_kind, specs);
                    Ok(true)
                } else {
                    Ok(false)
                }
            },
            Update::Add(index) => {
                let spec = LabelSpec::default();
                match self {
                    Self::Contain(specs) => specs.insert(index, spec),
                    Self::Exclude(specs) => specs.insert(index, spec),
                }
                proof {
                    assert(self.models() =~= old(self).models().insert(
                        index as int,
                        LabelSpecModel::Value("my label"@),
                    ));
                }
                Ok(true)
            },
            Update::Replace(index, s) => {
                let spec = match LabelSpec::new(s.as_str()) {
                    Ok(spec) => spec,
                    Err(e) => {
                        return Err(e);
                    },
                };
                match self {
                    Self::Contain(specs) => specs.set(index, spec),
                    Self::Exclude(specs) => specs.set(index, spec),
                }
                proof {
                    assert(self.models() =~= old(self).models().update(
                        index as int,
                        LabelSpec::spec_new(s@)->Ok_0,
                    ));
                }
                Ok(true)
            },
        }
    }

    /// The models of the specifications, in order.
    pub open spec fn models(&self) -> Seq<LabelSpecModel> {
        self.spec_specs().map_values(|s: LabelSpec| s@)
    }
}

/// Takes the specifications out of a filter, leaving it empty.
fn take_specs(f: &mut LabelFilter) -> (r: Vec<LabelSpec>)
    ensures
        r@ == old(f).spec_specs(),
{
    let mut out: Vec<LabelSpec> = Vec::new();
    match f {
        LabelFilter::Contain(specs) => core::mem::swap(specs, &mut out),
        LabelFilter::Exclude(specs) => core::mem::swap(specs, &mut out),
    }
    out
}

} // verus!
