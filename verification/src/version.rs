//! Versions and release types.

use crate::order::{
    codes, compare_numbers, compare_text, lemma_codes_injective, lemma_lex_equal,
    lemma_lex_transitive, lemma_numbers_injective, numbers, spec_lex, spec_text_order, spec_then,
    Order,
};
use crate::text::{chars_eq, find_char, from_chars, split_chars, to_chars};
use vstd::prelude::*;

verus! {

/// How a release is classified: one of the four channels, or a literal in
/// the shape of a version.
#[derive(Debug, Clone, Default)]
pub enum ReleaseType {
    #[default]
    Stable,
    Unstable,
    Testing,
    LTS,
    Shape(String),
}

/// The mathematical content of a release type.
pub enum ReleaseTypeView {
    Stable,
    Unstable,
    Testing,
    LTS,
    Shape(Seq<char>),
}

impl View for ReleaseType {
    type V = ReleaseTypeView;

    open spec fn view(&self) -> ReleaseTypeView {
        match self {
            ReleaseType::Stable => ReleaseTypeView::Stable,
            ReleaseType::Unstable => ReleaseTypeView::Unstable,
            ReleaseType::Testing => ReleaseTypeView::Testing,
            ReleaseType::LTS => ReleaseTypeView::LTS,
            ReleaseType::Shape(s) => ReleaseTypeView::Shape(s@),
        }
    }
}

/// `c` with an ASCII capital turned into its small letter.
pub open spec fn spec_lower_char(c: char) -> char {
    if 'A' <= c && c <= 'Z' {
        ((c as u8) + 32) as char
    } else {
        c
    }
}

/// `s` with every ASCII capital turned into its small letter.
pub open spec fn spec_ascii_lower(s: Seq<char>) -> Seq<char> {
    Seq::new(s.len(), |i: int| spec_lower_char(s[i]))
}

/// `true` for `0` to `9`.
pub open spec fn is_digit(c: char) -> bool {
    '0' <= c && c <= '9'
}

/// `true` when `s` is one or more digits.
pub open spec fn is_number(s: Seq<char>) -> bool {
    s.len() > 0 && forall|i: int| 0 <= i < s.len() ==> is_digit(#[trigger] s[i])
}

/// `true` when `s` is one or more numbers separated by single dots.
pub open spec fn is_dotted_number(s: Seq<char>) -> bool {
    let parts = crate::text::spec_split(s, '.');
    forall|i: int| 0 <= i < parts.len() ==> is_number(#[trigger] parts[i])
}

/// `true` when `s` has the shape of a version: a dotted number, optionally
/// followed by `-` and a suffix that is not empty.
pub open spec fn is_version_shape(s: Seq<char>) -> bool {
    match s.index_of_first('-') {
        Some(i) => is_dotted_number(s.subrange(0, i)) && i + 1 < s.len(),
        None => is_dotted_number(s),
    }
}

/// The release type that a literal denotes: one of the four channel names
/// in any ASCII case, or a version-shaped literal; nothing else.
pub open spec fn spec_parse_release_type(s: Seq<char>) -> Option<ReleaseTypeView> {
    let l = spec_ascii_lower(s);
    if l == "stable"@ {
        Some(ReleaseTypeView::Stable)
    } else if l == "unstable"@ {
        Some(ReleaseTypeView::Unstable)
    } else if l == "testing"@ {
        Some(ReleaseTypeView::Testing)
    } else if l == "lts"@ {
        Some(ReleaseTypeView::LTS)
    } else if is_version_shape(s) {
        Some(ReleaseTypeView::Shape(s))
    } else {
        None
    }
}

/// The text of a release type.
pub open spec fn spec_release_type_name(t: ReleaseTypeView) -> Seq<char> {
    match t {
        ReleaseTypeView::Stable => "stable"@,
        ReleaseTypeView::Unstable => "unstable"@,
        ReleaseTypeView::Testing => "testing"@,
        ReleaseTypeView::LTS => "lts"@,
        ReleaseTypeView::Shape(s) => s,
    }
}

/// Turns ASCII capitals into small letters.
pub fn ascii_lower(v: &Vec<char>) -> (r: Vec<char>)
    ensures
        r@ == spec_ascii_lower(v@),
{
    let mut out: Vec<char> = Vec::new();
    let mut i: usize = 0;
    while i < v.len()
        invariant
            i <= v.len(),
            out.len() == i,
            forall|j: int| 0 <= j < i ==> out@[j] == spec_lower_char(v@[j]),
        decreases v.len() - i,
    {
        let c = v[i];
        if 'A' <= c && c <= 'Z' {
            let b: u8 = c as u8;
            out.push((b + 32) as char);
        } else {
            out.push(c);
        }
        i += 1;
    }
    assert(out@ =~= spec_ascii_lower(v@));
    out
}

/// `true` when `v[from..to]` is one or more digits.
fn is_number_range(v: &Vec<char>, from: usize, to: usize) -> (r: bool)
    requires
        from <= to <= v.len(),
    ensures
        r == is_number(v@.subrange(from as int, to as int)),
{
    if from == to {
        return false;
    }
    let ghost s = v@.subrange(from as int, to as int);
    let mut i: usize = from;
    while i < to
        invariant
            from <= i <= to <= v.len(),
            s == v@.subrange(from as int, to as int),
            forall|j: int| 0 <= j < i - from ==> is_digit(#[trigger] s[j]),
        decreases to - i,
    {
        let c = v[i];
        if !('0' <= c && c <= '9') {
            assert(s[i - from] == c);
            return false;
        }
        i += 1;
    }
    true
}

/// `true` when `v` is one or more numbers separated by single dots.
pub fn check_dotted_number(v: &Vec<char>) -> (r: bool)
    ensures
        r == is_dotted_number(v@),
{
    let parts = split_chars(v, '.');
    let ghost sp = crate::text::spec_split(v@, '.');
    let mut i: usize = 0;
    while i < parts.len()
        invariant
            i <= parts.len(),
            sp == crate::text::chars_view(parts@),
            sp == crate::text::spec_split(v@, '.'),
            forall|j: int| 0 <= j < i ==> is_number(#[trigger] sp[j]),
        decreases parts.len() - i,
    {
        let p = &parts[i];
        assert(sp[i as int] == p@);
        assert(p@.subrange(0, p@.len() as int) =~= p@);
        if !is_number_range(p, 0, p.len()) {
            assert(!is_number(sp[i as int]));
            return false;
        }
        i += 1;
    }
    true
}

/// `true` when `v` has the shape of a version.
pub fn check_version_shape(v: &Vec<char>) -> (r: bool)
    ensures
        r == is_version_shape(v@),
{
    match find_char(v, '-') {
        Some(i) => {
            let head = crate::text::slice_chars(v, 0, i);
            check_dotted_number(&head) && i + 1 < v.len()
        },
        None => check_dotted_number(v),
    }
}

impl ReleaseType {
    /// Reads and validates a release-type literal.
    pub fn parse(s: &str) -> (r: Option<ReleaseType>)
        ensures
            r.is_some() == spec_parse_release_type(s@).is_some(),
            r.is_some() ==> r.unwrap()@ == spec_parse_release_type(s@).unwrap(),
    {
        let v = to_chars(s);
        let l = ascii_lower(&v);
        if chars_eq(&l, &to_chars("stable")) {
            Some(ReleaseType::Stable)
        } else if chars_eq(&l, &to_chars("unstable")) {
            Some(ReleaseType::Unstable)
        } else if chars_eq(&l, &to_chars("testing")) {
            Some(ReleaseType::Testing)
        } else if chars_eq(&l, &to_chars("lts")) {
            Some(ReleaseType::LTS)
        } else if check_version_shape(&v) {
            Some(ReleaseType::Shape(from_chars(&v)))
        } else {
            None
        }
    }

    /// The text of the release type.
    pub fn name(&self) -> (r: String)
        ensures
            r@ == spec_release_type_name(self@),
    {
        match self {
            ReleaseType::Stable => String::from_str("stable"),
            ReleaseType::Unstable => String::from_str("unstable"),
            ReleaseType::Testing => String::from_str("testing"),
            ReleaseType::LTS => String::from_str("lts"),
            ReleaseType::Shape(s) => s.clone(),
        }
    }

    /// A copy of the release type.
    pub fn duplicate(&self) -> (r: ReleaseType)
        ensures
            r@ == self@,
    {
        match self {
            ReleaseType::Stable => ReleaseType::Stable,
            ReleaseType::Unstable => ReleaseType::Unstable,
            ReleaseType::Testing => ReleaseType::Testing,
            ReleaseType::LTS => ReleaseType::LTS,
            ReleaseType::Shape(s) => ReleaseType::Shape(s.clone()),
        }
    }
}

/// A version: its numeric components and the text it was written as.
#[derive(Debug, Clone, Default)]
pub struct StructuredVersion {
    pub components: Vec<u32>,
    pub raw: String,
}

/// The mathematical content of a version.
pub struct VersionView {
    pub components: Seq<u32>,
    pub raw: Seq<char>,
}

impl View for StructuredVersion {
    type V = VersionView;

    open spec fn view(&self) -> VersionView {
        VersionView { components: self.components@, raw: self.raw@ }
    }
}

/// Versions are ordered by their components, then by their text.
pub open spec fn spec_version_order(a: VersionView, b: VersionView) -> Order {
    spec_then(
        spec_lex(numbers(a.components), numbers(b.components)),
        spec_text_order(a.raw, b.raw),
    )
}

/// Two versions compare `Equal` exactly when they are the same version.
pub proof fn lemma_version_order_equal(a: VersionView, b: VersionView)
    ensures
        (spec_version_order(a, b) == Order::Equal) <==> (a == b),
{
    lemma_lex_equal(numbers(a.components), numbers(b.components));
    lemma_lex_equal(codes(a.raw), codes(b.raw));
    if numbers(a.components) == numbers(b.components) {
        lemma_numbers_injective(a.components, b.components);
    }
    if codes(a.raw) == codes(b.raw) {
        lemma_codes_injective(a.raw, b.raw);
    }
}

/// The version order is transitive, and strict as soon as one step is.
pub proof fn lemma_version_order_transitive(a: VersionView, b: VersionView, c: VersionView)
    requires
        spec_version_order(a, b) != Order::Greater,
        spec_version_order(b, c) != Order::Greater,
    ensures
        spec_version_order(a, c) != Order::Greater,
        (spec_version_order(a, b) == Order::Less || spec_version_order(b, c) == Order::Less)
            ==> spec_version_order(a, c) == Order::Less,
{
    let (x, y, z) = (numbers(a.components), numbers(b.components), numbers(c.components));
    lemma_lex_transitive(x, y, z);
    lemma_lex_equal(x, y);
    lemma_lex_equal(y, z);
    lemma_lex_equal(x, z);
    if spec_lex(x, y) == Order::Equal && spec_lex(y, z) == Order::Equal {
        lemma_lex_transitive(codes(a.raw), codes(b.raw), codes(c.raw));
    }
}

impl StructuredVersion {
    /// Compares two versions.
    pub fn compare(&self, other: &StructuredVersion) -> (r: Order)
        ensures
            r == spec_version_order(self@, other@),
    {
        match compare_numbers(&self.components, &other.components) {
            Order::Equal => compare_text(self.raw.as_str(), other.raw.as_str()),
            o => o,
        }
    }

    /// `true` when the two versions are the same.
    pub fn same(&self, other: &StructuredVersion) -> (r: bool)
        ensures
            r == (self@ == other@),
    {
        proof {
            lemma_version_order_equal(self@, other@);
        }
        self.compare(other) == Order::Equal
    }

    /// A copy of the version.
    pub fn duplicate(&self) -> (r: StructuredVersion)
        ensures
            r@ == self@,
    {
        let mut components: Vec<u32> = Vec::new();
        let mut i: usize = 0;
        while i < self.components.len()
            invariant
                i <= self.components.len(),
                components@ == self.components@.subrange(0, i as int),
            decreases self.components.len() - i,
        {
            components.push(self.components[i]);
            i += 1;
            assert(components@ =~= self.components@.subrange(0, i as int));
        }
        assert(components@ =~= self.components@);
        StructuredVersion { components, raw: self.raw.clone() }
    }

    /// The text of the version.
    pub fn text(&self) -> (r: String)
        ensures
            r@ == self@.raw,
    {
        self.raw.clone()
    }
}

} // verus!
