//! Filters: the predicate language and the ordered registry that routes
//! every object to exactly one chart line.

pub mod gen;
pub mod label;
pub mod size;

use crate::allocs::Alloc;
use crate::err::{Error, Res};
use crate::text::push_char;
use crate::time::SinceStart;
use crate::uid::{FilterUid, LineUid, SubFilterUid};
use label::LabelFilter;
use size::SizeFilter;
use vstd::prelude::*;
use vstd::string::StrSliceExecFns;

verus! {

/// A display color.
#[derive(Debug, Clone, Copy, PartialEq, Eq, Structural)]
pub struct Color {
    /// Red component.
    pub r: u8,
    /// Green component.
    pub g: u8,
    /// Blue component.
    pub b: u8,
}

/// The lower-case hexadecimal digit of a value below sixteen.
pub open spec fn hex_digit(n: int) -> char {
    if n == 0 {
        '0'
    } else if n == 1 {
        '1'
    } else if n == 2 {
        '2'
    } else if n == 3 {
        '3'
    } else if n == 4 {
        '4'
    } else if n == 5 {
        '5'
    } else if n == 6 {
        '6'
    } else if n == 7 {
        '7'
    } else if n == 8 {
        '8'
    } else if n == 9 {
        '9'
    } else if n == 10 {
        'a'
    } else if n == 11 {
        'b'
    } else if n == 12 {
        'c'
    } else if n == 13 {
        'd'
    } else if n == 14 {
        'e'
    } else {
        'f'
    }
}

/// The value of a hexadecimal digit, accepting both cases; sixteen marks a
/// character that is no digit.
pub open spec fn hex_val(c: char) -> int {
    if c == '0' {
        0
    } else if c == '1' {
        1
    } else if c == '2' {
        2
    } else if c == '3' {
        3
    } else if c == '4' {
        4
    } else if c == '5' {
        5
    } else if c == '6' {
        6
    } else if c == '7' {
        7
    } else if c == '8' {
        8
    } else if c == '9' {
        9
    } else if c == 'a' || c == 'A' {
        10
    } else if c == 'b' || c == 'B' {
        11
    } else if c == 'c' || c == 'C' {
        12
    } else if c == 'd' || c == 'D' {
        13
    } else if c == 'e' || c == 'E' {
        14
    } else if c == 'f' || c == 'F' {
        15
    } else {
        16
    }
}

/// The two hexadecimal digits of a byte.
pub open spec fn hex_byte(v: u8) -> Seq<char> {
    seq![hex_digit(v as int / 16), hex_digit(v as int % 16)]
}

/// The `#rrggbb` rendering of a color.
pub open spec fn color_chars(c: Color) -> Seq<char> {
    seq!['#'] + hex_byte(c.r) + hex_byte(c.g) + hex_byte(c.b)
}

/// The lower-case hexadecimal digit of a value below sixteen, computed.
fn hex_digit_exec(n: u8) -> (c: char)
    requires
        n < 16,
    ensures
        c == hex_digit(n as int),
{
    match n {
        0 => '0',
        1 => '1',
        2 => '2',
        3 => '3',
        4 => '4',
        5 => '5',
        6 => '6',
        7 => '7',
        8 => '8',
        9 => '9',
        10 => 'a',
        11 => 'b',
        12 => 'c',
        13 => 'd',
        14 => 'e',
        _ => 'f',
    }
}

/// The value of a hexadecimal digit, computed; sixteen for non-digits.
fn hex_val_exec(c: char) -> (v: u8)
    ensures
        v == hex_val(c),
{
    match c {
        '0' => 0,
        '1' => 1,
        '2' => 2,
        '3' => 3,
        '4' => 4,
        '5' => 5,
        '6' => 6,
        '7' => 7,
        '8' => 8,
        '9' => 9,
        'a' | 'A' => 10,
        'b' | 'B' => 11,
        'c' | 'C' => 12,
        'd' | 'D' => 13,
        'e' | 'E' => 14,
        'f' | 'F' => 15,
        _ => 16,
    }
}

impl Color {
    /// Constructor.
    pub fn new(r: u8, g: u8, b: u8) -> (c: Color)
        ensures
            c == (Color { r, g, b }),
    {
        Color { r, g, b }
    }

    /// The `#rrggbb` rendering of the color.
    pub fn to_str(&self) -> (s: String)
        ensures
            s@ == color_chars(*self),
    {
        let mut s = String::new();
        push_char(&mut s, '#');
        push_char(&mut s, hex_digit_exec(self.r / 16));
        push_char(&mut s, hex_digit_exec(self.r % 16));
        push_char(&mut s, hex_digit_exec(self.g / 16));
        push_char(&mut s, hex_digit_exec(self.g % 16));
        push_char(&mut s, hex_digit_exec(self.b / 16));
        push_char(&mut s, hex_digit_exec(self.b % 16));
        proof {
            assert(s@ =~= color_chars(*self));
        }
        s
    }

    /// Whether a character sequence is a well-formed `#rrggbb` color.
    pub open spec fn parseable(s: Seq<char>) -> bool {
        s.len() == 7 && s[0] == '#' && (forall|i: int| 1 <= i < 7 ==> hex_val(#[trigger] s[i]) < 16)
    }

    /// The color a well-formed `#rrggbb` sequence denotes.
    pub open spec fn spec_parse(s: Seq<char>) -> Color {
        Color {
            r: (hex_val(s[1]) * 16 + hex_val(s[2])) as u8,
            g: (hex_val(s[3]) * 16 + hex_val(s[4])) as u8,
            b: (hex_val(s[5]) * 16 + hex_val(s[6])) as u8,
        }
    }

    /// Parses an `#rrggbb` color string; any other shape is refused.
    pub fn from_str(s: &str) -> (r: Res<Color>)
        ensures
            Self::parseable(s@) ==> r == Res::<Color>::Ok(Self::spec_parse(s@)),
            !Self::parseable(s@) ==> r is Err && (r->Err_0 matches Error::IllegalColor(t)
                && t@ == s@),
    {
        let n = s.unicode_len();
        if n != 7 || s.get_char(0) != '#' {
            return Err(Error::IllegalColor(s.to_owned()));
        }
        let mut vals: [u8; 6] = [0, 0, 0, 0, 0, 0];
        let mut i: usize = 1;
        while i < 7
            invariant
                1 <= i <= 7,
                s@.len() == 7,
                forall|q: int| 1 <= q < i ==> hex_val(#[trigger] s@[q]) < 16,
                forall|q: int| 1 <= q < i ==> vals@[q - 1] == hex_val(s@[q]),
            decreases 7 - i,
        {
            let v = hex_val_exec(s.get_char(i));
            if v >= 16 {
                return Err(Error::IllegalColor(s.to_owned()));
            }
            vals[i - 1] = v;
            i += 1;
        }
        proof {
            assert(vals@[0] == hex_val(s@[1]) && hex_val(s@[1]) < 16);
            assert(vals@[1] == hex_val(s@[2]) && hex_val(s@[2]) < 16);
            assert(vals@[2] == hex_val(s@[3]) && hex_val(s@[3]) < 16);
            assert(vals@[3] == hex_val(s@[4]) && hex_val(s@[4]) < 16);
            assert(vals@[4] == hex_val(s@[5]) && hex_val(s@[5]) < 16);
            assert(vals@[5] == hex_val(s@[6]) && hex_val(s@[6]) < 16);
        }
        Ok(Color {
            r: vals[0] * 16 + vals[1],
            g: vals[2] * 16 + vals[3],
            b: vals[4] * 16 + vals[5],
        })
    }
}

/// Rendering a color and parsing it back yields the color again.
pub proof fn lemma_color_round_trip(c: Color)
    ensures
        Color::parseable(color_chars(c)),
        Color::spec_parse(color_chars(c)) == c,
{
    let s = color_chars(c);
    assert forall|i: int| 1 <= i < 7 implies hex_val(#[trigger] s[i]) < 16 by {
        lemma_hex_digit_val(c.r as int / 16);
        lemma_hex_digit_val(c.r as int % 16);
        lemma_hex_digit_val(c.g as int / 16);
        lemma_hex_digit_val(c.g as int % 16);
        lemma_hex_digit_val(c.b as int / 16);
        lemma_hex_digit_val(c.b as int % 16);
    }
    lemma_hex_digit_val(c.r as int / 16);
    lemma_hex_digit_val(c.r as int % 16);
    lemma_hex_digit_val(c.g as int / 16);
    lemma_hex_digit_val(c.g as int % 16);
    lemma_hex_digit_val(c.b as int / 16);
    lemma_hex_digit_val(c.b as int % 16);
}

/// A hexadecimal digit reads back as its value.
pub proof fn lemma_hex_digit_val(n: int)
    requires
        0 <= n < 16,
    ensures
        hex_val(hex_digit(n)) == n,
{
}

/// The displayable identity of a filter line: its line key, name, color and
/// a transient flag marking unsaved edits.
#[derive(Debug)]
pub struct FilterSpec {
    /// The line this specification belongs to.
    pub uid: LineUid,
    /// Display name.
    pub name: String,
    /// Display color.
    pub color: Color,
    /// True while the specification holds unsaved edits.
    pub edited: bool,
}

impl Clone for FilterSpec {
    /// Cloning keeps every field.
    fn clone(&self) -> (r: Self)
        ensures
            r.uid == self.uid,
            r.name@ == self.name@,
            r.color == self.color,
            r.edited == self.edited,
    {
        FilterSpec { uid: self.uid, name: self.name.clone(), color: self.color, edited: self.edited }
    }
}

impl FilterSpec {
    /// Constructor.
    pub fn new(uid: LineUid, name: String, color: Color) -> (r: FilterSpec)
        ensures
            r == (FilterSpec { uid, name, color, edited: false }),
    {
        FilterSpec { uid, name, color, edited: false }
    }

    /// The specification of the catch-all line.
    pub fn new_catch_all() -> (r: FilterSpec)
        ensures
            r.uid == LineUid::CatchAll,
            r.name@ == "catch all"@,
            r.edited == false,
    {
        FilterSpec {
            uid: LineUid::CatchAll,
            name: "catch all".to_owned(),
            color: Color { r: 0x80, g: 0x80, b: 0x80 },
            edited: false,
        }
    }

    /// The line this specification belongs to.
    pub fn uid(&self) -> (r: LineUid)
        ensures
            r == self.uid,
    {
        self.uid
    }

    /// Display name.
    pub fn name(&self) -> (r: &String)
        ensures
            r@ == self.name@,
    {
        &self.name
    }

    /// Display color.
    pub fn color(&self) -> (r: Color)
        ensures
            r == self.color,
    {
        self.color
    }

    /// True while the specification holds unsaved edits.
    pub fn edited(&self) -> (r: bool)
        ensures
            r == self.edited,
    {
        self.edited
    }

    /// Changes the display name.
    pub fn set_name(&mut self, name: String)
        ensures
            *final(self) == (FilterSpec { name, ..*old(self) }),
    {
        self.name = name;
    }

    /// Changes the display color.
    pub fn set_color(&mut self, color: Color)
        ensures
            *final(self) == (FilterSpec { color, ..*old(self) }),
    {
        self.color = color;
    }

    /// Marks the specification as edited.
    pub fn set_edited(&mut self)
        ensures
            *final(self) == (FilterSpec { edited: true, ..*old(self) }),
    {
        self.edited = true;
    }

    /// Clears the edited mark.
    pub fn unset_edited(&mut self)
        ensures
            *final(self) == (FilterSpec { edited: false, ..*old(self) }),
    {
        self.edited = false;
    }
}

/// The two kinds of sub-filter.
#[derive(Debug, Clone, Copy, PartialEq, Eq, Structural)]
pub enum FilterKind {
    /// A size predicate.
    Size,
    /// A label predicate.
    Label,
}

impl FilterKind {
    /// All the kinds, in display order.
    pub fn all() -> (r: Vec<FilterKind>)
        ensures
            r@ == seq![FilterKind::Size, FilterKind::Label],
    {
        let mut v: Vec<FilterKind> = Vec::new();
        v.push(FilterKind::Size);
        v.push(FilterKind::Label);
        proof {
            assert(v@ =~= seq![FilterKind::Size, FilterKind::Label]);
        }
        v
    }
}

/// A sub-filter proper: a size or a label predicate.
#[derive(Debug)]
pub enum RawSubFilter {
    /// A size predicate.
    Size(SizeFilter),
    /// A label predicate.
    Label(LabelFilter),
}

impl Clone for RawSubFilter {
    /// Cloning keeps the predicate.
    fn clone(&self) -> (r: Self)
        ensures
            raw_model(r) == raw_model(*self),
    {
        match self {
            RawSubFilter::Size(f) => RawSubFilter::Size(*f),
            RawSubFilter::Label(f) => RawSubFilter::Label(f.clone()),
        }
    }
}

/// The model of a sub-filter predicate: the size predicate as it stands, the
/// label predicate by its kind and specification models.
pub enum RawSubFilterModel {
    /// A size predicate.
    Size(SizeFilter),
    /// A label predicate.
    Label(label::Kind, Seq<label::LabelSpecModel>),
}

/// The model of a raw sub-filter.
pub open spec fn raw_model(raw: RawSubFilter) -> RawSubFilterModel {
    match raw {
        RawSubFilter::Size(f) => RawSubFilterModel::Size(f),
        RawSubFilter::Label(f) => RawSubFilterModel::Label(f.spec_kind(), f.models()),
    }
}

/// Whether a raw sub-filter holds of an object's size and labels.
pub open spec fn raw_matches(raw: RawSubFilter, size: u64, labels: Seq<Seq<char>>) -> bool {
    match raw {
        RawSubFilter::Size(f) => size::size_matches(f, size),
        RawSubFilter::Label(f) => label::label_filter_matches(f, labels),
    }
}

impl RawSubFilter {
    /// The kind of the predicate.
    pub fn kind(&self) -> (r: FilterKind)
        ensures
            r == match self {
                RawSubFilter::Size(_) => FilterKind::Size,
                RawSubFilter::Label(_) => FilterKind::Label,
            },
    {
        match self {
            RawSubFilter::Size(_) => FilterKind::Size,
            RawSubFilter::Label(_) => FilterKind::Label,
        }
    }

    /// Whether the predicate holds of an object.
    pub fn apply(&self, alloc: &Alloc) -> (r: bool)
        ensures
            r == raw_matches(*self, alloc.size, alloc.labels.deep_view()),
    {
        match self {
            RawSubFilter::Size(f) => f.apply(alloc.size),
            RawSubFilter::Label(f) => f.apply(alloc.labels.as_slice()),
        }
    }
}

impl Default for RawSubFilter {
    /// The default sub-filter predicate: the default size predicate.
    fn default() -> (r: Self)
        ensures
            r == RawSubFilter::Size(SizeFilter::Cmp { cmp: size::Cmp::Ge, val: 0u64 }),
    {
        RawSubFilter::Size(SizeFilter::Cmp { cmp: size::Cmp::Ge, val: 0 })
    }
}

/// A sub-filter: a predicate with its identity inside its filter.
#[derive(Debug)]
pub struct SubFilter {
    /// Identity of the sub-filter.
    pub uid: SubFilterUid,
    /// The predicate.
    pub raw: RawSubFilter,
}

impl Clone for SubFilter {
    /// Cloning keeps the identity and the predicate.
    fn clone(&self) -> (r: Self)
        ensures
            r.uid == self.uid,
            raw_model(r.raw) == raw_model(self.raw),
    {
        SubFilter { uid: self.uid, raw: self.raw.clone() }
    }
}

/// Whether a sub-filter holds of an object.
pub open spec fn sub_matches(sub: SubFilter, alloc: Alloc) -> bool {
    raw_matches(sub.raw, alloc.size, alloc.labels.deep_view())
}

impl SubFilter {
    /// Constructor.
    pub fn new(uid: SubFilterUid, raw: RawSubFilter) -> (r: SubFilter)
        ensures
            r == (SubFilter { uid, raw }),
    {
        SubFilter { uid, raw }
    }

    /// Identity of the sub-filter.
    pub fn uid(&self) -> (r: SubFilterUid)
        ensures
            r == self.uid,
    {
        self.uid
    }

    /// The predicate.
    pub fn raw(&self) -> (r: &RawSubFilter)
        ensures
            r == &self.raw,
    {
        &self.raw
    }

    /// The kind of the predicate.
    pub fn kind(&self) -> (r: FilterKind)
        ensures
            r == match self.raw {
                RawSubFilter::Size(_) => FilterKind::Size,
                RawSubFilter::Label(_) => FilterKind::Label,
            },
    {
        self.raw.kind()
    }

    /// Changes the kind of the predicate; a change resets it to the default
    /// predicate of the new kind.
    pub fn change_kind(&mut self, kind: FilterKind)
        ensures
            final(self).uid == old(self).uid,
            raw_model(final(self).raw) == match kind {
                FilterKind::Size => if old(self).raw is Size {
                    raw_model(old(self).raw)
                } else {
                    raw_model(RawSubFilter::Size(SizeFilter::Cmp { cmp: size::Cmp::Ge, val: 0u64 }))
                },
                FilterKind::Label => if old(self).raw is Label {
                    raw_model(old(self).raw)
                } else {
                    RawSubFilterModel::Label(label::Kind::Contain, Seq::empty())
                },
            },
    {
        let current = self.raw.kind();
        if current != kind {
            match kind {
                FilterKind::Size => {
                    self.raw = RawSubFilter::Size(SizeFilter::Cmp { cmp: size::Cmp::Ge, val: 0 });
                },
                FilterKind::Label => {
                    self.raw = RawSubFilter::Label(LabelFilter::Contain(Vec::new()));
                },
            }
            proof {
                if kind is Label {
                    assert(self.raw->Label_0.models() =~= Seq::<label::LabelSpecModel>::empty());
                }
            }
        }
    }

    /// Whether the sub-filter holds of an object.
    pub fn apply(&self, alloc: &Alloc) -> (r: bool)
        ensures
            r == sub_matches(*self, *alloc),
    {
        self.raw.apply(alloc)
    }
}

/// One user filter: its display identity and the ordered conjunction of its
/// sub-filters.
#[derive(Debug)]
pub struct Filter {
    /// Display identity; its line is always a `Filter` line.
    pub spec: FilterSpec,
    /// The sub-filters; an object matches when every one of them holds.
    pub subs: Vec<SubFilter>,
    /// True while the sub-filters hold unsaved edits.
    pub edited: bool,
}

impl Clone for Filter {
    /// Cloning keeps the identity, the sub-filters and the edit mark.
    fn clone(&self) -> (r: Self)
        ensures
            r.spec.uid == self.spec.uid,
            r.spec.name@ == self.spec.name@,
            r.spec.color == self.spec.color,
            r.spec.edited == self.spec.edited,
            r.edited == self.edited,
            r.subs@.len() == self.subs@.len(),
            forall|i: int|
                0 <= i < self.subs@.len() ==> (#[trigger] r.subs@[i]).uid == self.subs@[i].uid
                    && raw_model(r.subs@[i].raw) == raw_model(self.subs@[i].raw),
    {
        let mut subs: Vec<SubFilter> = Vec::new();
        let mut i: usize = 0;
        while i < self.subs.len()
            invariant
                i <= self.subs@.len(),
                subs@.len() == i,
                forall|q: int|
                    0 <= q < i ==> (#[trigger] subs@[q]).uid == self.subs@[q].uid && raw_model(
                        subs@[q].raw,
                    ) == raw_model(self.subs@[q].raw),
            decreases self.subs@.len() - i,
        {
            subs.push(self.subs[i].clone());
            i += 1;
        }
        Filter { spec: self.spec.clone(), subs, edited: self.edited }
    }
}

/// Whether every sub-filter of a filter holds of an object (a conjunction;
/// an empty filter matches everything).
pub open spec fn filter_matches(f: Filter, alloc: Alloc) -> bool {
    forall|i: int| 0 <= i < f.subs@.len() ==> sub_matches(#[trigger] f.subs@[i], alloc)
}

impl Filter {
    /// A filter's display identity always names a filter line.
    pub open spec fn wf(&self) -> bool {
        self.spec.uid is Filter
    }

    /// The filter's identifier.
    pub open spec fn spec_uid(&self) -> FilterUid {
        self.spec.uid->Filter_0
    }

    /// Constructor: a filter with no sub-filters.
    pub fn new(uid: FilterUid, name: String, color: Color) -> (r: Filter)
        ensures
            r.wf(),
            r.spec_uid() == uid,
            r.spec.name@ == name@,
            r.spec.color == color,
            r.spec.edited == false,
            r.edited == false,
            r.subs@.len() == 0,
    {
        Filter {
            spec: FilterSpec::new(LineUid::Filter(uid), name, color),
            subs: Vec::new(),
            edited: false,
        }
    }

    /// The filter's identifier.
    pub fn uid(&self) -> (r: FilterUid)
        requires
            self.wf(),
        ensures
            r == self.spec_uid(),
    {
        match self.spec.uid {
            LineUid::Filter(uid) => uid,
            _ => FilterUid { index: 0 },
        }
    }

    /// Display identity.
    pub fn spec(&self) -> (r: &FilterSpec)
        ensures
            r == &self.spec,
    {
        &self.spec
    }

    /// The sub-filters, in order.
    pub fn subs(&self) -> (r: &Vec<SubFilter>)
        ensures
            r == &self.subs,
    {
        &self.subs
    }

    /// True while the sub-filters hold unsaved edits.
    pub fn edited(&self) -> (r: bool)
        ensures
            r == self.edited,
    {
        self.edited
    }

    /// Marks the filter as edited.
    pub fn set_edited(&mut self)
        ensures
            *final(self) == (Filter { edited: true, ..*old(self) }),
    {
        self.edited = true;
    }

    /// Clears the edited mark.
    pub fn unset_edited(&mut self)
        ensures
            *final(self) == (Filter { edited: false, ..*old(self) }),
    {
        self.edited = false;
    }

    /// The first position holding a sub-filter with the given identifier.
    pub open spec fn sub_index_of(subs: Seq<SubFilter>, uid: SubFilterUid) -> int
        decreases subs.len(),
    {
        if subs.len() == 0 {
            -1
        } else if subs[0].uid == uid {
            0
        } else {
            let rest = Self::sub_index_of(subs.drop_first(), uid);
            if rest == -1 {
                -1
            } else {
                rest + 1
            }
        }
    }

    /// The position of a sub-filter identifier is in range when it exists.
    pub proof fn lemma_sub_index_of(subs: Seq<SubFilter>, uid: SubFilterUid)
        ensures
            Self::sub_index_of(subs, uid) == -1 ==> forall|i: int|
                0 <= i < subs.len() ==> (#[trigger] subs[i]).uid != uid,
            Self::sub_index_of(subs, uid) != -1 ==> 0 <= Self::sub_index_of(subs, uid)
                < subs.len() && subs[Self::sub_index_of(subs, uid)].uid == uid,
        decreases subs.len(),
    {
        if subs.len() > 0 && subs[0].uid != uid {
            Self::lemma_sub_index_of(subs.drop_first(), uid);
            if Self::sub_index_of(subs, uid) == -1 {
                assert forall|i: int| 0 <= i < subs.len() implies (#[trigger] subs[i]).uid
                    != uid by {
                    if i > 0 {
                        assert(subs[i] == subs.drop_first()[i - 1]);
                    }
                }
            }
        }
    }

    /// The first position holding a sub-filter with the identifier, computed;
    /// the length when there is none.
    fn find_sub(&self, uid: SubFilterUid) -> (r: usize)
        ensures
            Self::sub_index_of(self.subs@, uid) == -1 ==> r == self.subs@.len(),
            Self::sub_index_of(self.subs@, uid) != -1 ==> r == Self::sub_index_of(
                self.subs@,
                uid,
            ),
    {
        let mut i: usize = 0;
        while i < self.subs.len()
            invariant
                i <= self.subs@.len(),
                forall|q: int| 0 <= q < i ==> (#[trigger] self.subs@[q]).uid != uid,
            decreases self.subs@.len() - i,
        {
            if self.subs[i].uid.index == uid.index {
                proof {
                    Self::lemma_sub_index_first(self.subs@, uid, i as int);
                }
                return i;
            }
            i += 1;
        }
        proof {
            Self::lemma_sub_index_of(self.subs@, uid);
            if Self::sub_index_of(self.subs@, uid) != -1 {
                assert(self.subs@[Self::sub_index_of(self.subs@, uid)].uid == uid);
            }
        }
        i
    }

    /// A position whose predecessors all miss is the first position.
    pub proof fn lemma_sub_index_first(subs: Seq<SubFilter>, uid: SubFilterUid, i: int)
        requires
            0 <= i < subs.len(),
            subs[i].uid == uid,
            forall|q: int| 0 <= q < i ==> (#[trigger] subs[q]).uid != uid,
        ensures
            Self::sub_index_of(subs, uid) == i,
        decreases subs.len(),
    {
        if i > 0 {
            Self::lemma_sub_index_first(subs.drop_first(), uid, i - 1);
        }
    }

    /// Adds a sub-filter; fails, changing nothing, exactly when its
    /// identifier is already used.
    pub fn insert(&mut self, sub: SubFilter) -> (r: Res<()>)
        ensures
            match r {
                Ok(()) => Self::sub_index_of(old(self).subs@, sub.uid) == -1 && *final(self) == (
                Filter { subs: final(self).subs, ..*old(self) }) && final(self).subs@ == old(
                    self,
                ).subs@.push(sub),
                Err(e) => Self::sub_index_of(old(self).subs@, sub.uid) != -1 && *final(self)
                    == *old(self) && e == Error::SubUidCollision(sub.uid),
            },
    {
        let i = self.find_sub(sub.uid);
        proof {
            Self::lemma_sub_index_of(self.subs@, sub.uid);
        }
        if i < self.subs.len() {
            Err(Error::SubUidCollision(sub.uid))
        } else {
            self.subs.push(sub);
            Ok(())
        }
    }

    /// Replaces the sub-filter carrying the same identifier; fails, changing
    /// nothing, exactly when none does.
    pub fn replace(&mut self, sub: SubFilter) -> (r: Res<()>)
        ensures
            match r {
                Ok(()) => Self::sub_index_of(old(self).subs@, sub.uid) != -1 && *final(self) == (
                Filter { subs: final(self).subs, ..*old(self) }) && final(self).subs@ == old(
                    self,
                ).subs@.update(Self::sub_index_of(old(self).subs@, sub.uid), sub),
                Err(e) => Self::sub_index_of(old(self).subs@, sub.uid) == -1 && *final(self)
                    == *old(self) && e == Error::UnknownSubUid(sub.uid),
            },
    {
        let i = self.find_sub(sub.uid);
        proof {
            Self::lemma_sub_index_of(self.subs@, sub.uid);
        }
        if i < self.subs.len() {
            self.subs.set(i, sub);
            Ok(())
        } else {
            Err(Error::UnknownSubUid(sub.uid))
        }
    }

    /// Removes the sub-filter carrying the identifier; fails, changing
    /// nothing, exactly when none does.
    pub fn remove(&mut self, uid: SubFilterUid) -> (r: Res<()>)
        ensures
            match r {
                Ok(()) => Self::sub_index_of(old(self).subs@, uid) != -1 && *final(self) == (
                Filter { subs: final(self).subs, ..*old(self) }) && final(self).subs@ == old(
                    self,
                ).subs@.remove(Self::sub_index_of(old(self).subs@, uid)),
                Err(e) => Self::sub_index_of(old(self).subs@, uid) == -1 && *final(self) == *old(
                    self,
                ) && e == Error::UnknownSubUid(uid),
            },
    {
        let i = self.find_sub(uid);
        proof {
            Self::lemma_sub_index_of(self.subs@, uid);
        }
        if i < self.subs.len() {
            self.subs.remove(i);
            Ok(())
        } else {
            Err(Error::UnknownSubUid(uid))
        }
    }

    /// Appends a fresh sub-filter: an unused identifier, the default
    /// predicate; fails, changing nothing, exactly when an identifier is at
    /// the end of the identifier space.
    pub fn insert_new(&mut self) -> (r: Res<SubFilterUid>)
        ensures
            match r {
                Ok(uid) => final(self).subs@ == old(self).subs@.push(
                    SubFilter {
                        uid,
                        raw: RawSubFilter::Size(SizeFilter::Cmp { cmp: size::Cmp::Ge, val: 0u64 }),
                    },
                ) && *final(self) == (Filter { subs: final(self).subs, ..*old(self) }) && (forall|
                    i: int,
                |
                    0 <= i < old(self).subs@.len() ==> (#[trigger] old(self).subs@[i]).uid != uid),
                Err(e) => *final(self) == *old(self) && e == Error::UidsExhausted && exists|i: int|
                    0 <= i < old(self).subs@.len() && (#[trigger] old(self).subs@[i]).uid.index
                        == u64::MAX,
            },
    {
        let mut max: u64 = 0;
        let mut i: usize = 0;
        while i < self.subs.len()
            invariant
                i <= self.subs@.len(),
                forall|q: int| 0 <= q < i ==> (#[trigger] self.subs@[q]).uid.index <= max,
                max == 0 || exists|q: int|
                    0 <= q < i && (#[trigger] self.subs@[q]).uid.index == max,
            decreases self.subs@.len() - i,
        {
            if self.subs[i].uid.index >= max {
                max = self.subs[i].uid.index;
            }
            i += 1;
        }
        if max == u64::MAX {
            return Err(Error::UidsExhausted);
        }
        let uid = SubFilterUid { index: max + 1 };
        let sub = SubFilter {
            uid,
            raw: RawSubFilter::Size(SizeFilter::Cmp { cmp: size::Cmp::Ge, val: 0 }),
        };
        self.subs.push(sub);
        Ok(uid)
    }

    /// Whether every sub-filter holds of an object.
    pub fn matches(&self, alloc: &Alloc) -> (r: bool)
        ensures
            r == filter_matches(*self, *alloc),
    {
        let mut i: usize = 0;
        while i < self.subs.len()
            invariant
                i <= self.subs@.len(),
                forall|q: int| 0 <= q < i ==> sub_matches(#[trigger] self.subs@[q], *alloc),
            decreases self.subs@.len() - i,
        {
            if !self.subs[i].apply(alloc) {
                return false;
            }
            i += 1;
        }
        true
    }
}

/// The identifier of a filter.
pub open spec fn fuid(f: Filter) -> FilterUid {
    f.spec.uid->Filter_0
}

/// The first position holding a filter with the given identifier, `-1` if
/// there is none.
pub open spec fn index_of(filters: Seq<Filter>, uid: FilterUid) -> int
    decreases filters.len(),
{
    if filters.len() == 0 {
        -1
    } else if fuid(filters[0]) == uid {
        0
    } else {
        let rest = index_of(filters.drop_first(), uid);
        if rest == -1 {
            -1
        } else {
            rest + 1
        }
    }
}

/// The position of a filter identifier is in range when it exists.
pub proof fn lemma_index_of(filters: Seq<Filter>, uid: FilterUid)
    ensures
        index_of(filters, uid) == -1 ==> forall|i: int|
            0 <= i < filters.len() ==> fuid(#[trigger] filters[i]) != uid,
        index_of(filters, uid) != -1 ==> 0 <= index_of(filters, uid) < filters.len() && fuid(
            filters[index_of(filters, uid)],
        ) == uid,
    decreases filters.len(),
{
    if filters.len() > 0 && fuid(filters[0]) != uid {
        lemma_index_of(filters.drop_first(), uid);
        if index_of(filters, uid) == -1 {
            assert forall|i: int| 0 <= i < filters.len() implies fuid(#[trigger] filters[i])
                != uid by {
                if i > 0 {
                    assert(filters[i] == filters.drop_first()[i - 1]);
                }
            }
        }
    }
}

/// A position whose predecessors all miss is the first position.
pub proof fn lemma_index_of_first(filters: Seq<Filter>, uid: FilterUid, i: int)
    requires
        0 <= i < filters.len(),
        fuid(filters[i]) == uid,
        forall|q: int| 0 <= q < i ==> fuid(#[trigger] filters[q]) != uid,
    ensures
        index_of(filters, uid) == i,
    decreases filters.len(),
{
    if i > 0 {
        lemma_index_of_first(filters.drop_first(), uid, i - 1);
    }
}

/// The identifier of the first filter, in registration order, whose
/// sub-filters all hold of the object; `None` means the catch-all line.
pub open spec fn first_match(filters: Seq<Filter>, alloc: Alloc, i: int) -> Option<FilterUid>
    decreases filters.len() - i,
{
    if i < 0 || i >= filters.len() {
        None
    } else if filter_matches(filters[i], alloc) {
        Some(fuid(filters[i]))
    } else {
        first_match(filters, alloc, i + 1)
    }
}

/// The ordered filter registry, with its distinguished catch-all entry.
#[derive(Debug)]
pub struct Filters {
    /// The catch-all entry; it always exists and cannot be removed.
    pub catch_all: FilterSpec,
    /// The filters, in registration order; matching priority follows it.
    pub filters: Vec<Filter>,
    /// True if a filter was removed and the server was not told yet.
    pub deleted: bool,
}

impl Filters {
    /// Well-formed: the catch-all entry names the catch-all line, every
    /// filter names a filter line, and identifiers are unique.
    pub open spec fn wf(&self) -> bool {
        &&& self.catch_all.uid == LineUid::CatchAll
        &&& forall|i: int| 0 <= i < self.filters@.len() ==> (#[trigger] self.filters@[i]).wf()
        &&& forall|i: int, j: int|
            0 <= i < j < self.filters@.len() ==> fuid(self.filters@[i]) != fuid(self.filters@[j])
    }

    /// Constructor: an empty registry.
    pub fn new() -> (r: Filters)
        ensures
            r.wf(),
            r.filters@.len() == 0,
            r.deleted == false,
            r.catch_all.uid == LineUid::CatchAll,
            r.catch_all.edited == false,
    {
        Filters { catch_all: FilterSpec::new_catch_all(), filters: Vec::new(), deleted: false }
    }

    /// The number of filters, **not** including the catch-all.
    pub fn len(&self) -> (r: usize)
        ensures
            r == self.filters@.len(),
    {
        self.filters.len()
    }

    /// The catch-all entry.
    pub fn catch_all(&self) -> (r: &FilterSpec)
        ensures
            r == &self.catch_all,
    {
        &self.catch_all
    }

    /// The filters, in registration order.
    pub fn filters(&self) -> (r: &Vec<Filter>)
        ensures
            r == &self.filters,
    {
        &self.filters
    }

    /// The first position holding the identifier, computed; the length when
    /// there is none.
    fn find(&self, uid: FilterUid) -> (r: usize)
        requires
            self.wf(),
        ensures
            index_of(self.filters@, uid) == -1 ==> r == self.filters@.len(),
            index_of(self.filters@, uid) != -1 ==> r == index_of(self.filters@, uid),
    {
        let mut i: usize = 0;
        while i < self.filters.len()
            invariant
                self.wf(),
                i <= self.filters@.len(),
                forall|q: int| 0 <= q < i ==> fuid(#[trigger] self.filters@[q]) != uid,
            decreases self.filters@.len() - i,
        {
            if self.filters[i].uid().index == uid.index {
                proof {
                    lemma_index_of_first(self.filters@, uid, i as int);
                }
                return i;
            }
            i += 1;
        }
        proof {
            lemma_index_of(self.filters@, uid);
        }
        i
    }

    /// The filter carrying the identifier, if any.
    pub fn get(&self, uid: FilterUid) -> (r: Option<&Filter>)
        requires
            self.wf(),
        ensures
            match r {
                Some(f) => index_of(self.filters@, uid) != -1 && *f == self.filters@[index_of(
                    self.filters@,
                    uid,
                )],
                None => index_of(self.filters@, uid) == -1,
            },
    {
        let i = self.find(uid);
        proof {
            lemma_index_of(self.filters@, uid);
        }
        if i < self.filters.len() {
            Some(&self.filters[i])
        } else {
            None
        }
    }

    /// Adds a filter at the end of the registration order; fails, leaving
    /// the registry unchanged, exactly when the identifier is already used.
    pub fn push(&mut self, filter: Filter) -> (r: Res<()>)
        requires
            old(self).wf(),
            filter.wf(),
        ensures
            final(self).wf(),
            match r {
                Ok(()) => index_of(old(self).filters@, fuid(filter)) == -1 && final(self).filters@
                    == old(self).filters@.push(filter) && final(self).catch_all == old(
                    self,
                ).catch_all && final(self).deleted == old(self).deleted,
                Err(e) => index_of(old(self).filters@, fuid(filter)) != -1 && *final(self) == *old(
                    self,
                ) && e == Error::UidCollision(fuid(filter)),
            },
    {
        let uid = filter.uid();
        let i = self.find(uid);
        proof {
            lemma_index_of(self.filters@, uid);
        }
        if i < self.filters.len() {
            Err(Error::UidCollision(uid))
        } else {
            self.filters.push(filter);
            Ok(())
        }
    }

    /// Removes the filter carrying the identifier; fails, changing nothing,
    /// exactly when none does.
    pub fn remove(&mut self, uid: FilterUid) -> (r: Res<()>)
        requires
            old(self).wf(),
        ensures
            final(self).wf(),
            match r {
                Ok(()) => index_of(old(self).filters@, uid) != -1 && final(self).filters@ == old(
                    self,
                ).filters@.remove(index_of(old(self).filters@, uid)) && final(self).catch_all
                    == old(self).catch_all && final(self).deleted == old(self).deleted,
                Err(e) => index_of(old(self).filters@, uid) == -1 && *final(self) == *old(self)
                    && e == Error::UnknownUid(uid),
            },
    {
        let i = self.find(uid);
        proof {
            lemma_index_of(self.filters@, uid);
        }
        if i < self.filters.len() {
            self.filters.remove(i);
            Ok(())
        } else {
            Err(Error::UnknownUid(uid))
        }
    }

    /// The identifier of the first filter, in registration order, whose
    /// sub-filters all hold of the object at the given time; `None` means
    /// the catch-all line.
    pub fn find_match(&self, _time: SinceStart, alloc: &Alloc) -> (r: Option<FilterUid>)
        requires
            self.wf(),
        ensures
            r == first_match(self.filters@, *alloc, 0),
    {
        self.find_first_match(alloc)
    }

    /// The same matching on an object's static attributes alone, for an
    /// object already dead: no predicate of this registry reads the current
    /// time, so the iteration is the very same.
    pub fn find_dead_match(&self, alloc: &Alloc) -> (r: Option<FilterUid>)
        requires
            self.wf(),
        ensures
            r == first_match(self.filters@, *alloc, 0),
    {
        self.find_first_match(alloc)
    }

    /// The shared matching loop.
    fn find_first_match(&self, alloc: &Alloc) -> (r: Option<FilterUid>)
        requires
            self.wf(),
        ensures
            r == first_match(self.filters@, *alloc, 0),
    {
        let mut i: usize = 0;
        while i < self.filters.len()
            invariant
                self.wf(),
                i <= self.filters@.len(),
                first_match(self.filters@, *alloc, 0) == first_match(
                    self.filters@,
                    *alloc,
                    i as int,
                ),
            decreases self.filters@.len() - i,
        {
            if self.filters[i].matches(alloc) {
                return Some(self.filters[i].uid_raw());
            }
            i += 1;
        }
        None
    }

    /// True if anything was edited since the last save.
    pub fn edited(&self) -> (r: bool)
        ensures
            r == self.spec_edited(),
    {
        if self.deleted || self.catch_all.edited {
            return true;
        }
        let mut i: usize = 0;
        while i < self.filters.len()
            invariant
                i <= self.filters@.len(),
                !self.deleted,
                !self.catch_all.edited,
                forall|q: int|
                    0 <= q < i ==> !(#[trigger] self.filters@[q]).edited
                        && !self.filters@[q].spec.edited,
            decreases self.filters@.len() - i,
        {
            if self.filters[i].edited() || self.filters[i].spec().edited() {
                return true;
            }
            i += 1;
        }
        false
    }

    /// Whether anything was edited since the last save.
    pub open spec fn spec_edited(&self) -> bool {
        self.deleted || self.catch_all.edited || exists|i: int|
            0 <= i < self.filters@.len() && ((#[trigger] self.filters@[i]).edited
                || self.filters@[i].spec.edited)
    }

    /// The line keys this registry defines: the aggregate of all lines, the
    /// catch-all, and one line per filter, in registration order.
    pub open spec fn spec_line_uids(&self) -> Seq<LineUid> {
        seq![LineUid::Everything, LineUid::CatchAll] + self.filters@.map_values(
            |f: Filter| LineUid::Filter(fuid(f)),
        )
    }

    /// The line keys this registry defines, computed.
    pub fn line_uids(&self) -> (r: Vec<LineUid>)
        requires
            self.wf(),
        ensures
            r@ == self.spec_line_uids(),
    {
        let mut v: Vec<LineUid> = Vec::new();
        v.push(LineUid::Everything);
        v.push(LineUid::CatchAll);
        let mut i: usize = 0;
        while i < self.filters.len()
            invariant
                self.wf(),
                i <= self.filters@.len(),
                v@.len() == i + 2,
                v@[0] == LineUid::Everything,
                v@[1] == LineUid::CatchAll,
                forall|q: int|
                    0 <= q < i ==> v@[q + 2] == LineUid::Filter(fuid(#[trigger] self.filters@[q])),
            decreases self.filters@.len() - i,
        {
            v.push(LineUid::Filter(self.filters[i].uid()));
            i += 1;
        }
        proof {
            assert(v@ =~= self.spec_line_uids());
        }
        v
    }
}

impl Filter {
    /// The filter's identifier, without a well-formedness requirement: the
    /// identifier of its line if it is a filter line, the zero identifier
    /// otherwise.
    fn uid_raw(&self) -> (r: FilterUid)
        ensures
            self.wf() ==> r == fuid(*self),
    {
        match self.spec.uid {
            LineUid::Filter(uid) => uid,
            _ => FilterUid { index: 0 },
        }
    }
}

/// The default sub-filter predicate.
pub open spec fn default_raw() -> RawSubFilter {
    RawSubFilter::Size(SizeFilter::Cmp { cmp: size::Cmp::Ge, val: 0u64 })
}

/// How a sub-filter operation relates a filter before (`o`) and after (`n`)
/// the call, and its result.
pub open spec fn filter_update_rel(o: Filter, n: Filter, msg: crate::msg::FilterMsg, r: Res<
    bool,
>) -> bool {
    match msg {
        crate::msg::FilterMsg::AddNew => match r {
            Ok(b) => b == true && n.edited == true && n.spec == o.spec && (exists|
                uid: SubFilterUid,
            |
                n.subs@ == #[trigger] o.subs@.push(SubFilter { uid, raw: default_raw() }) && (
                forall|i: int| 0 <= i < o.subs@.len() ==> (#[trigger] o.subs@[i]).uid != uid)),
            Err(e) => n == o && e == Error::UidsExhausted,
        },
        crate::msg::FilterMsg::Sub(sub) => match r {
            Ok(b) => b == true && n.edited == true && n.spec == o.spec && Filter::sub_index_of(
                o.subs@,
                sub.uid,
            ) != -1 && n.subs@ == o.subs@.update(Filter::sub_index_of(o.subs@, sub.uid), sub),
            Err(e) => n == o && Filter::sub_index_of(o.subs@, sub.uid) == -1 && e
                == Error::UnknownSubUid(sub.uid),
        },
        crate::msg::FilterMsg::RmSub(uid) => match r {
            Ok(b) => b == true && n.edited == true && n.spec == o.spec && Filter::sub_index_of(
                o.subs@,
                uid,
            ) != -1 && n.subs@ == o.subs@.remove(Filter::sub_index_of(o.subs@, uid)),
            Err(e) => n == o && Filter::sub_index_of(o.subs@, uid) == -1 && e
                == Error::UnknownSubUid(uid),
        },
    }
}

/// Applies a sub-filter operation to a filter, marking it edited on success.
pub fn filter_update(filter: &mut Filter, msg: crate::msg::FilterMsg) -> (r: Res<bool>)
    ensures
        filter_update_rel(*old(filter), *final(filter), msg, r),
{
    match msg {
        crate::msg::FilterMsg::AddNew => {
            filter.insert_new()?;
            filter.set_edited();
            Ok(true)
        },
        crate::msg::FilterMsg::Sub(sub) => {
            filter.replace(sub)?;
            filter.set_edited();
            Ok(true)
        },
        crate::msg::FilterMsg::RmSub(uid) => {
            filter.remove(uid)?;
            filter.set_edited();
            Ok(true)
        },
    }
}

/// The first position of a display identity keyed by the identifier, `-1`
/// if there is none.
pub open spec fn spec_lookup(specs: Seq<(FilterUid, FilterSpec)>, uid: FilterUid) -> int
    decreases specs.len(),
{
    if specs.len() == 0 {
        -1
    } else if specs[0].0 == uid {
        0
    } else {
        let rest = spec_lookup(specs.drop_first(), uid);
        if rest == -1 {
            -1
        } else {
            rest + 1
        }
    }
}

/// The position of an identifier in a display-identity list is in range
/// when it exists.
pub proof fn lemma_spec_lookup(specs: Seq<(FilterUid, FilterSpec)>, uid: FilterUid)
    ensures
        spec_lookup(specs, uid) == -1 ==> forall|k: int|
            0 <= k < specs.len() ==> (#[trigger] specs[k]).0 != uid,
        spec_lookup(specs, uid) != -1 ==> 0 <= spec_lookup(specs, uid) < specs.len()
            && specs[spec_lookup(specs, uid)].0 == uid,
    decreases specs.len(),
{
    if specs.len() > 0 && specs[0].0 != uid {
        lemma_spec_lookup(specs.drop_first(), uid);
        if spec_lookup(specs, uid) == -1 {
            assert forall|k: int| 0 <= k < specs.len() implies (#[trigger] specs[k]).0 != uid by {
                if k > 0 {
                    assert(specs[k] == specs.drop_first()[k - 1]);
                }
            }
        }
    }
}

/// A position whose predecessors all miss is the first position.
pub proof fn lemma_spec_lookup_first(specs: Seq<(FilterUid, FilterSpec)>, uid: FilterUid, k: int)
    requires
        0 <= k < specs.len(),
        specs[k].0 == uid,
        forall|q: int| 0 <= q < k ==> (#[trigger] specs[q]).0 != uid,
    ensures
        spec_lookup(specs, uid) == k,
    decreases specs.len(),
{
    if k > 0 {
        lemma_spec_lookup_first(specs.drop_first(), uid, k - 1);
    }
}

/// The first position of a display identity keyed by the identifier,
/// computed; the length when there is none.
fn lookup_spec(specs: &Vec<(FilterUid, FilterSpec)>, uid: FilterUid) -> (r: usize)
    ensures
        spec_lookup(specs@, uid) == -1 ==> r == specs@.len(),
        spec_lookup(specs@, uid) != -1 ==> r == spec_lookup(specs@, uid),
{
    let mut k: usize = 0;
    while k < specs.len()
        invariant
            k <= specs@.len(),
            forall|q: int| 0 <= q < k ==> (#[trigger] specs@[q]).0 != uid,
        decreases specs@.len() - k,
    {
        if specs[k].0.index == uid.index {
            proof {
                lemma_spec_lookup_first(specs@, uid, k as int);
            }
            return k;
        }
        k += 1;
    }
    proof {
        lemma_spec_lookup(specs@, uid);
    }
    k
}

/// Whether two registry states hold the same content.
pub open spec fn same_state(a: Filters, b: Filters) -> bool {
    a.filters@ == b.filters@ && a.catch_all == b.catch_all && a.deleted == b.deleted
}

/// Field-wise likeness of two filters, as a clone guarantees it: the same
/// identity, marks and sub-filter models.
pub open spec fn filter_like(a: Filter, b: Filter) -> bool {
    &&& a.spec.uid == b.spec.uid
    &&& a.spec.name@ == b.spec.name@
    &&& a.spec.color == b.spec.color
    &&& a.spec.edited == b.spec.edited
    &&& a.edited == b.edited
    &&& a.subs@.len() == b.subs@.len()
    &&& forall|i: int|
        0 <= i < a.subs@.len() ==> (#[trigger] a.subs@[i]).uid == b.subs@[i].uid && raw_model(
            a.subs@[i].raw,
        ) == raw_model(b.subs@[i].raw)
}

impl Filters {
    /// Changes the name of a filter, or of the catch-all entry when no
    /// identifier is given, and marks it edited; an empty name and an
    /// unknown identifier are refused, changing nothing.
    pub fn change_name(&mut self, uid: Option<FilterUid>, new_name: String) -> (r: Res<()>)
        requires
            old(self).wf(),
        ensures
            final(self).wf(),
            match r {
                Ok(()) => match uid {
                    None => new_name@.len() > 0 && *final(self) == (Filters {
                        catch_all: FilterSpec {
                            name: new_name,
                            edited: true,
                            ..old(self).catch_all
                        },
                        ..*old(self)
                    }),
                    Some(u) => new_name@.len() > 0 && index_of(old(self).filters@, u) != -1 && (
                    final(self).filters@ == old(self).filters@.update(
                        index_of(old(self).filters@, u),
                        (Filter {
                            spec: FilterSpec {
                                name: new_name,
                                edited: true,
                                ..old(self).filters@[index_of(old(self).filters@, u)].spec
                            },
                            ..old(self).filters@[index_of(old(self).filters@, u)]
                        }),
                    )) && final(self).catch_all == old(self).catch_all && final(self).deleted
                        == old(self).deleted,
                },
                Err(e) => *final(self) == *old(self) && (if new_name@.len() == 0 {
                    e == Error::EmptyName
                } else {
                    uid matches Some(u) && index_of(old(self).filters@, u) == -1 && e
                        == Error::UnknownUid(u)
                }),
            },
    {
        if new_name.as_str().unicode_len() == 0 {
            return Err(Error::EmptyName);
        }
        match uid {
            None => {
                self.catch_all.set_name(new_name);
                self.catch_all.set_edited();
                Ok(())
            },
            Some(u) => {
                let i = self.find(u);
                proof {
                    lemma_index_of(self.filters@, u);
                }
                if i < self.filters.len() {
                    let mut f = self.filters.remove(i);
                    f.spec.set_name(new_name);
                    f.spec.set_edited();
                    self.filters.insert(i, f);
                    proof {
                        let idx = i as int;
                        assert(self.filters@ =~= old(self).filters@.update(
                            idx,
                            (Filter {
                                spec: FilterSpec {
                                    name: self.filters@[idx].spec.name,
                                    edited: true,
                                    ..old(self).filters@[idx].spec
                                },
                                ..old(self).filters@[idx]
                            }),
                        ));
                    }
                    Ok(())
                } else {
                    Err(Error::UnknownUid(u))
                }
            },
        }
    }

    /// Changes the color of a filter, or of the catch-all entry when no
    /// identifier is given, and marks it edited; a malformed color string
    /// and an unknown identifier are refused, changing nothing.
    pub fn change_color(&mut self, uid: Option<FilterUid>, new_color: String) -> (r: Res<()>)
        requires
            old(self).wf(),
        ensures
            final(self).wf(),
            match r {
                Ok(()) => Color::parseable(new_color@) && match uid {
                    None => *final(self) == (Filters {
                        catch_all: FilterSpec {
                            color: Color::spec_parse(new_color@),
                            edited: true,
                            ..old(self).catch_all
                        },
                        ..*old(self)
                    }),
                    Some(u) => index_of(old(self).filters@, u) != -1 && (final(self).filters@
                        == old(self).filters@.update(
                        index_of(old(self).filters@, u),
                        (Filter {
                            spec: FilterSpec {
                                color: Color::spec_parse(new_color@),
                                edited: true,
                                ..old(self).filters@[index_of(old(self).filters@, u)].spec
                            },
                            ..old(self).filters@[index_of(old(self).filters@, u)]
                        }),
                    )) && final(self).catch_all == old(self).catch_all && final(self).deleted
                        == old(self).deleted,
                },
                Err(e) => *final(self) == *old(self) && (if !Color::parseable(new_color@) {
                    e matches Error::IllegalColor(t) && t@ == new_color@
                } else {
                    uid matches Some(u) && index_of(old(self).filters@, u) == -1 && e
                        == Error::UnknownUid(u)
                }),
            },
    {
        let color = Color::from_str(new_color.as_str())?;
        match uid {
            None => {
                self.catch_all.set_color(color);
                self.catch_all.set_edited();
                Ok(())
            },
            Some(u) => {
                let i = self.find(u);
                proof {
                    lemma_index_of(self.filters@, u);
                }
                if i < self.filters.len() {
                    let mut f = self.filters.remove(i);
                    f.spec.set_color(color);
                    f.spec.set_edited();
                    self.filters.insert(i, f);
                    proof {
                        let idx = i as int;
                        assert(self.filters@ =~= old(self).filters@.update(
                            idx,
                            (Filter {
                                spec: FilterSpec {
                                    color: Color::spec_parse(new_color@),
                                    edited: true,
                                    ..old(self).filters@[idx].spec
                                },
                                ..old(self).filters@[idx]
                            }),
                        ));
                    }
                    Ok(())
                } else {
                    Err(Error::UnknownUid(u))
                }
            },
        }
    }

    /// Applies a sub-filter operation to the filter carrying the identifier.
    pub fn update_filter(&mut self, uid: FilterUid, msg: crate::msg::FilterMsg) -> (r: Res<bool>)
        requires
            old(self).wf(),
        ensures
            final(self).wf(),
            final(self).catch_all == old(self).catch_all,
            final(self).deleted == old(self).deleted,
            match r {
                Ok(b) => index_of(old(self).filters@, uid) != -1 && (exists|f: Filter|
                    filter_update_rel(
                        old(self).filters@[index_of(old(self).filters@, uid)],
                        f,
                        msg,
                        Res::<bool>::Ok(b),
                    ) && final(self).filters@ == #[trigger] old(self).filters@.update(
                        index_of(old(self).filters@, uid),
                        f,
                    )),
                Err(e) => if index_of(old(self).filters@, uid) == -1 {
                    same_state(*final(self), *old(self)) && e == Error::UnknownUid(uid)
                } else {
                    same_state(*final(self), *old(self)) && filter_update_rel(
                        old(self).filters@[index_of(old(self).filters@, uid)],
                        old(self).filters@[index_of(old(self).filters@, uid)],
                        msg,
                        Res::<bool>::Err(e),
                    )
                },
            },
    {
        let i = self.find(uid);
        proof {
            lemma_index_of(self.filters@, uid);
        }
        if i < self.filters.len() {
            let ghost prev = self.filters@;
            let mut f = self.filters.remove(i);
            let ghost fo = f;
            let res = filter_update(&mut f, msg);
            self.filters.insert(i, f);
            proof {
                let idx = i as int;
                let fnew = self.filters@[idx];
                assert(self.filters@ =~= prev.update(idx, fnew));
                if res is Err {
                    assert(fnew == fo);
                    assert(self.filters@ =~= prev);
                } else {
                    assert(fnew.spec == fo.spec);
                }
                assert forall|q: int|
                    0 <= q < self.filters@.len() implies (#[trigger] self.filters@[q]).wf() by {
                    assert(self.filters@[q].spec.uid == prev[q].spec.uid);
                }
                assert forall|q: int, w: int|
                    0 <= q < w < self.filters@.len() implies fuid(self.filters@[q]) != fuid(
                    self.filters@[w],
                ) by {
                    assert(self.filters@[q].spec.uid == prev[q].spec.uid);
                    assert(self.filters@[w].spec.uid == prev[w].spec.uid);
                }
            }
            res
        } else {
            Err(Error::UnknownUid(uid))
        }
    }

    /// Clears every transient edit mark and the pending-deletion flag, and
    /// returns the saved content: the catch-all entry and the filters as
    /// they stood, in order.
    pub fn save(&mut self) -> (r: (FilterSpec, Vec<Filter>))
        requires
            old(self).wf(),
        ensures
            final(self).wf(),
            final(self).deleted == false,
            final(self).catch_all == (FilterSpec { edited: false, ..old(self).catch_all }),
            final(self).filters@.len() == old(self).filters@.len(),
            forall|i: int|
                0 <= i < old(self).filters@.len() ==> #[trigger] final(self).filters@[i] == (
                Filter {
                    edited: false,
                    spec: FilterSpec { edited: false, ..old(self).filters@[i].spec },
                    ..old(self).filters@[i]
                }),
            r.0.uid == old(self).catch_all.uid && r.0.name@ == old(self).catch_all.name@
                && r.0.color == old(self).catch_all.color && r.0.edited == old(
                self,
            ).catch_all.edited,
            r.1@.len() == old(self).filters@.len(),
            forall|i: int|
                0 <= i < old(self).filters@.len() ==> filter_like(
                    #[trigger] r.1@[i],
                    old(self).filters@[i],
                ),
    {
        self.deleted = false;
        let catch_all = self.catch_all.clone();
        self.catch_all.unset_edited();
        let mut out: Vec<Filter> = Vec::new();
        let mut rest: Vec<Filter> = Vec::new();
        core::mem::swap(&mut self.filters, &mut rest);
        let ghost prev = rest@;
        let ghost ca = self.catch_all;
        let n = rest.len();
        let mut i: usize = 0;
        while i < n
            invariant
                self.catch_all == ca,
                self.deleted == false,
                n == prev.len(),
                i <= prev.len(),
                rest@ == prev.skip(i as int),
                out@.len() == i,
                self.filters@.len() == i,
                forall|q: int|
                    0 <= q < i ==> #[trigger] self.filters@[q] == (Filter {
                        edited: false,
                        spec: FilterSpec { edited: false, ..prev[q].spec },
                        ..prev[q]
                    }),
                forall|q: int| 0 <= q < i ==> filter_like(#[trigger] out@[q], prev[q]),
            decreases prev.len() - i,
        {
            let mut f = rest.remove(0);
            proof {
                assert(f == prev[i as int]);
                assert(rest@ =~= prev.skip(i as int + 1));
            }
            out.push(f.clone());
            f.unset_edited();
            f.spec.unset_edited();
            self.filters.push(f);
            i += 1;
        }
        proof {
            assert forall|q: int|
                0 <= q < self.filters@.len() implies (#[trigger] self.filters@[q]).wf() by {
                assert(self.filters@[q].spec.uid == prev[q].spec.uid);
            }
            assert forall|q: int, w: int|
                0 <= q < w < self.filters@.len() implies fuid(self.filters@[q]) != fuid(
                self.filters@[w],
            ) by {
                assert(self.filters@[q].spec.uid == prev[q].spec.uid);
                assert(self.filters@[w].spec.uid == prev[w].spec.uid);
            }
        }
        (catch_all, out)
    }

    /// Applies a registry operation; the result says whether anything
    /// changed in a way a display should re-render.
    ///
    /// Saving clears every transient mark; a removal also raises the
    /// pending-deletion flag; identity and sub-filter operations delegate,
    /// leaving the registry untouched on failure.
    pub fn update(&mut self, msg: crate::msg::FiltersMsg) -> (r: Res<bool>)
        requires
            old(self).wf(),
        ensures
            final(self).wf(),
            match msg {
                crate::msg::FiltersMsg::Save => r == Res::<bool>::Ok(true) && final(self).deleted
                    == false && final(self).catch_all == (FilterSpec {
                    edited: false,
                    ..old(self).catch_all
                }) && final(self).filters@.len() == old(self).filters@.len() && (forall|i: int|
                    0 <= i < old(self).filters@.len() ==> #[trigger] final(self).filters@[i] == (
                    Filter {
                        edited: false,
                        spec: FilterSpec { edited: false, ..old(self).filters@[i].spec },
                        ..old(self).filters@[i]
                    })),
                crate::msg::FiltersMsg::Rm(uid) => match r {
                    Ok(b) => b == true && index_of(old(self).filters@, uid) != -1 && final(self).filters@ == old(self).filters@.remove(index_of(old(self).filters@, uid))
                        && final(self).deleted == true && final(self).catch_all == old(
                        self,
                    ).catch_all,
                    Err(e) => index_of(old(self).filters@, uid) == -1 && same_state(
                        *final(self),
                        *old(self),
                    ) && e == Error::UnknownUid(uid),
                },
                crate::msg::FiltersMsg::FilterSpec { uid, msg: spec_msg } => match r {
                    Ok(b) => b == true && match spec_msg {
                        crate::msg::FilterSpecMsg::ChangeName(n) => n@.len() > 0 && match uid {
                            None => *final(self) == (Filters {
                                catch_all: FilterSpec {
                                    name: n,
                                    edited: true,
                                    ..old(self).catch_all
                                },
                                ..*old(self)
                            }),
                            Some(u) => index_of(old(self).filters@, u) != -1 && final(self).filters@ == old(self).filters@.update(
                                index_of(old(self).filters@, u),
                                (Filter {
                                    spec: FilterSpec {
                                        name: n,
                                        edited: true,
                                        ..old(self).filters@[index_of(old(self).filters@, u)].spec
                                    },
                                    ..old(self).filters@[index_of(old(self).filters@, u)]
                                }),
                            ) && final(self).catch_all == old(self).catch_all && final(self).deleted == old(self).deleted,
                        },
                        crate::msg::FilterSpecMsg::ChangeColor(c) => Color::parseable(c@) && match uid {
                            None => *final(self) == (Filters {
                                catch_all: FilterSpec {
                                    color: Color::spec_parse(c@),
                                    edited: true,
                                    ..old(self).catch_all
                                },
                                ..*old(self)
                            }),
                            Some(u) => index_of(old(self).filters@, u) != -1 && final(self).filters@ == old(self).filters@.update(
                                index_of(old(self).filters@, u),
                                (Filter {
                                    spec: FilterSpec {
                                        color: Color::spec_parse(c@),
                                        edited: true,
                                        ..old(self).filters@[index_of(old(self).filters@, u)].spec
                                    },
                                    ..old(self).filters@[index_of(old(self).filters@, u)]
                                }),
                            ) && final(self).catch_all == old(self).catch_all && final(self).deleted == old(self).deleted,
                        },
                    },
                    Err(_) => same_state(*final(self), *old(self)),
                },
                crate::msg::FiltersMsg::Filter { uid, msg } => match r {
                    Ok(b) => index_of(old(self).filters@, uid) != -1 && (exists|f: Filter|
                        filter_update_rel(
                            old(self).filters@[index_of(old(self).filters@, uid)],
                            f,
                            msg,
                            Res::<bool>::Ok(b),
                        ) && final(self).filters@ == #[trigger] old(self).filters@.update(
                            index_of(old(self).filters@, uid),
                            f,
                        )),
                    Err(_) => same_state(*final(self), *old(self)),
                },
            },
    {
        match msg {
            crate::msg::FiltersMsg::Save => {
                let _snapshot = self.save();
                Ok(true)
            },
            crate::msg::FiltersMsg::Rm(uid) => {
                self.remove(uid)?;
                self.deleted = true;
                Ok(true)
            },
            crate::msg::FiltersMsg::FilterSpec {
                uid,
                msg: crate::msg::FilterSpecMsg::ChangeName(new_name),
            } => {
                self.change_name(uid, new_name)?;
                Ok(true)
            },
            crate::msg::FiltersMsg::FilterSpec {
                uid,
                msg: crate::msg::FilterSpecMsg::ChangeColor(new_color),
            } => {
                self.change_color(uid, new_color)?;
                Ok(true)
            },
            crate::msg::FiltersMsg::Filter { uid, msg } => self.update_filter(uid, msg),
        }
    }

    /// Adds a filter sent by the server, marked edited; fails, changing
    /// nothing, exactly on an identifier collision.
    pub fn add_filter(&mut self, filter: Filter) -> (r: Res<bool>)
        requires
            old(self).wf(),
            filter.wf(),
        ensures
            final(self).wf(),
            match r {
                Ok(b) => b == true && index_of(old(self).filters@, fuid(filter)) == -1 && final(self).filters@ == old(self).filters@.push(
                    (Filter { edited: true, ..filter }),
                ) && final(self).catch_all == old(self).catch_all && final(self).deleted == old(
                    self,
                ).deleted,
                Err(e) => index_of(old(self).filters@, fuid(filter)) != -1 && *final(self) == *old(
                    self,
                ) && e == Error::UidCollision(fuid(filter)),
            },
    {
        let mut filter = filter;
        filter.set_edited();
        self.push(filter)?;
        Ok(true)
    }

    /// Replaces the whole registry content at the server's demand.
    pub fn revert(&mut self, catch_all: FilterSpec, filters: Vec<Filter>) -> (r: bool)
        requires
            old(self).wf(),
            catch_all.uid == LineUid::CatchAll,
            forall|i: int| 0 <= i < filters@.len() ==> (#[trigger] filters@[i]).wf(),
            forall|i: int, j: int|
                0 <= i < j < filters@.len() ==> fuid(filters@[i]) != fuid(filters@[j]),
        ensures
            final(self).wf(),
            r == true,
            final(self).catch_all == catch_all,
            final(self).filters@ == filters@,
            final(self).deleted == old(self).deleted,
    {
        self.catch_all = catch_all;
        self.filters = filters;
        true
    }

    /// Replaces the display identities of the filters named in `specs` (and
    /// of the catch-all entry, when one is given), clearing their edit
    /// marks; fails, changing nothing, when some named filter is unknown.
    pub fn update_specs(&mut self, catch_all: Option<FilterSpec>, specs: Vec<(FilterUid, FilterSpec)>) -> (r: Res<bool>)
        requires
            old(self).wf(),
            catch_all matches Some(ca) ==> ca.uid == LineUid::CatchAll,
            forall|k: int|
                0 <= k < specs@.len() ==> (#[trigger] specs@[k]).1.uid == LineUid::Filter(
                    specs@[k].0,
                ),
        ensures
            final(self).wf(),
            match r {
                Ok(b) => b == true && (forall|k: int|
                    0 <= k < specs@.len() ==> index_of(
                        old(self).filters@,
                        (#[trigger] specs@[k]).0,
                    ) != -1) && final(self).deleted == old(self).deleted && (match catch_all {
                    Some(ca) => final(self).catch_all.uid == ca.uid && final(self).catch_all.name@
                        == ca.name@ && final(self).catch_all.color == ca.color && final(self).catch_all.edited == false,
                    None => final(self).catch_all == old(self).catch_all,
                }) && final(self).filters@.len() == old(self).filters@.len() && (forall|i: int|
                    0 <= i < old(self).filters@.len() ==> {
                        let k = spec_lookup(specs@, fuid(#[trigger] old(self).filters@[i]));
                        if k == -1 {
                            final(self).filters@[i] == old(self).filters@[i]
                        } else {
                            final(self).filters@[i].spec.uid == old(self).filters@[i].spec.uid
                                && final(self).filters@[i].spec.name@ == specs@[k].1.name@ && final(self).filters@[i].spec.color == specs@[k].1.color && final(self).filters@[i].spec.edited == false && final(self).filters@[i].subs@
                                == old(self).filters@[i].subs@ && final(self).filters@[i].edited
                                == old(self).filters@[i].edited
                        }
                    }),
                Err(e) => same_state(*final(self), *old(self)) && (exists|k: int|
                    0 <= k < specs@.len() && index_of(
                        old(self).filters@,
                        (#[trigger] specs@[k]).0,
                    ) == -1 && e == Error::UnknownUid(specs@[k].0)),
            },
    {
        let mut k: usize = 0;
        while k < specs.len()
            invariant
                self.wf(),
                *self == *old(self),
                k <= specs@.len(),
                forall|q: int|
                    0 <= q < k ==> index_of(self.filters@, (#[trigger] specs@[q]).0) != -1,
            decreases specs@.len() - k,
        {
            let i = self.find(specs[k].0);
            proof {
                lemma_index_of(self.filters@, specs@[k as int].0);
            }
            if i == self.filters.len() {
                return Err(Error::UnknownUid(specs[k].0));
            }
            k += 1;
        }
        if let Some(ca) = catch_all {
            self.catch_all = ca;
            self.catch_all.unset_edited();
        }
        let mut rest: Vec<Filter> = Vec::new();
        core::mem::swap(&mut self.filters, &mut rest);
        let ghost prev = rest@;
        let ghost ca_now = self.catch_all;
        let n = rest.len();
        let mut i: usize = 0;
        while i < n
            invariant
                self.catch_all == ca_now,
                self.deleted == old(self).deleted,
                n == prev.len(),
                i <= prev.len(),
                rest@ == prev.skip(i as int),
                self.filters@.len() == i,
                forall|q: int| 0 <= q < prev.len() ==> (#[trigger] prev[q]).wf(),
                forall|k: int|
                    0 <= k < specs@.len() ==> (#[trigger] specs@[k]).1.uid == LineUid::Filter(
                        specs@[k].0,
                    ),
                forall|q: int|
                    0 <= q < i ==> {
                        let k = spec_lookup(specs@, fuid(#[trigger] prev[q]));
                        if k == -1 {
                            self.filters@[q] == prev[q]
                        } else {
                            self.filters@[q].spec.uid == prev[q].spec.uid
                                && self.filters@[q].spec.name@ == specs@[k].1.name@
                                && self.filters@[q].spec.color == specs@[k].1.color
                                && self.filters@[q].spec.edited == false && self.filters@[q].subs@
                                == prev[q].subs@ && self.filters@[q].edited == prev[q].edited
                        }
                    },
                forall|q: int|
                    0 <= q < i ==> (#[trigger] self.filters@[q]).spec.uid == prev[q].spec.uid,
            decreases prev.len() - i,
        {
            let mut f = rest.remove(0);
            proof {
                assert(f == prev[i as int]);
                assert(rest@ =~= prev.skip(i as int + 1));
            }
            let k = lookup_spec(&specs, f.uid());
            proof {
                lemma_spec_lookup(specs@, fuid(prev[i as int]));
            }
            if k < specs.len() {
                let mut sp = specs[k].1.clone();
                sp.unset_edited();
                f.spec = sp;
            }
            self.filters.push(f);
            i += 1;
        }
        proof {
            assert forall|q: int|
                0 <= q < self.filters@.len() implies (#[trigger] self.filters@[q]).wf() by {
                assert(self.filters@[q].spec.uid == prev[q].spec.uid);
            }
            assert forall|q: int, w: int|
                0 <= q < w < self.filters@.len() implies fuid(self.filters@[q]) != fuid(
                self.filters@[w],
            ) by {
                assert(self.filters@[q].spec.uid == prev[q].spec.uid);
                assert(self.filters@[w].spec.uid == prev[w].spec.uid);
            }
        }
        Ok(true)
    }

    /// Applies an operation sent by the server: an addition arrives marked
    /// edited and fails on a collision; a revert replaces the whole content;
    /// a specification update replaces the named identities, failing and
    /// changing nothing when one is unknown.
    pub fn server_update(&mut self, msg: crate::msg::FiltersServerMsg) -> (r: Res<bool>)
        requires
            old(self).wf(),
            match msg {
                crate::msg::FiltersServerMsg::Add(filter) => filter.wf(),
                crate::msg::FiltersServerMsg::Revert { catch_all, filters } => catch_all.uid
                    == LineUid::CatchAll && (forall|i: int|
                    0 <= i < filters@.len() ==> (#[trigger] filters@[i]).wf()) && (forall|
                    i: int,
                    j: int,
                |
                    0 <= i < j < filters@.len() ==> fuid(filters@[i]) != fuid(filters@[j])),
                crate::msg::FiltersServerMsg::UpdateSpecs { catch_all, specs } => (catch_all
                    matches Some(ca) ==> ca.uid == LineUid::CatchAll) && (forall|k: int|
                    0 <= k < specs@.len() ==> (#[trigger] specs@[k]).1.uid == LineUid::Filter(
                        specs@[k].0,
                    )),
            },
        ensures
            final(self).wf(),
            match msg {
                crate::msg::FiltersServerMsg::Add(filter) => match r {
                    Ok(b) => b == true && index_of(old(self).filters@, fuid(filter)) == -1
                        && final(self).filters@ == old(self).filters@.push(
                        (Filter { edited: true, ..filter }),
                    ) && final(self).catch_all == old(self).catch_all && final(self).deleted
                        == old(self).deleted,
                    Err(e) => index_of(old(self).filters@, fuid(filter)) != -1 && *final(self)
                        == *old(self) && e == Error::UidCollision(fuid(filter)),
                },
                crate::msg::FiltersServerMsg::Revert { catch_all, filters } => r == Res::<
                    bool,
                >::Ok(true) && final(self).catch_all == catch_all && final(self).filters@
                    == filters@ && final(self).deleted == old(self).deleted,
                crate::msg::FiltersServerMsg::UpdateSpecs { catch_all, specs } => match r {
                    Ok(b) => b == true && (forall|k: int|
                        0 <= k < specs@.len() ==> index_of(
                            old(self).filters@,
                            (#[trigger] specs@[k]).0,
                        ) != -1),
                    Err(e) => same_state(*final(self), *old(self)) && (exists|k: int|
                        0 <= k < specs@.len() && index_of(
                            old(self).filters@,
                            (#[trigger] specs@[k]).0,
                        ) == -1 && e == Error::UnknownUid(specs@[k].0)),
                },
            },
    {
        match msg {
            crate::msg::FiltersServerMsg::Add(filter) => self.add_filter(filter),
            crate::msg::FiltersServerMsg::Revert { catch_all, filters } => {
                let r = self.revert(catch_all, filters);
                Ok(r)
            },
            crate::msg::FiltersServerMsg::UpdateSpecs { catch_all, specs } => self.update_specs(
                catch_all,
                specs,
            ),
        }
    }

    /// Removes a filter at the server's demand.
    pub fn rm_filter(&mut self, uid: FilterUid) -> (r: Res<bool>)
        requires
            old(self).wf(),
        ensures
            final(self).wf(),
            match r {
                Ok(b) => b == true && index_of(old(self).filters@, uid) != -1 && final(self).filters@ == old(self).filters@.remove(index_of(old(self).filters@, uid)) && final(self).catch_all == old(self).catch_all && final(self).deleted == old(self).deleted,
                Err(e) => index_of(old(self).filters@, uid) == -1 && *final(self) == *old(self)
                    && e == Error::UnknownUid(uid),
            },
    {
        self.remove(uid)?;
        Ok(true)
    }
}

} // verus!

