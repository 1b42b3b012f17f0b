//! Reading a version text: its numeric components and, from a marker such
//! as `rc` or `nightly`, its release type.

use crate::pattern::{capture, groups_view, regex_groups, regex_valid, Captured};
use crate::text::{chars_eq, chars_view, opt_view, spec_split, split_chars, to_chars};
use crate::version::{
    ascii_lower, is_digit, spec_ascii_lower, ReleaseType, ReleaseTypeView, StructuredVersion,
    VersionView,
};
use vstd::prelude::*;

verus! {

/// A version text taken apart.
#[derive(Debug, Clone)]
pub struct InspectedVersion {
    pub version: StructuredVersion,
    pub release_type: ReleaseType,
}

/// The regular expression that finds the number and the marker in a
/// version text.
pub open spec fn spec_version_pattern() -> Seq<char> {
    "(?i)(?:v|version\\s*)?(\\d+(?:\\.\\d+)*)(?:[-._ ]?(rc|beta|alpha|nightly|canary|next|preview)(?:\\.?(\\d+))?)?"@
}

/// The value of a text of digits.
pub open spec fn spec_digits_value(s: Seq<char>) -> nat
    decreases s.len(),
{
    if s.len() == 0 {
        0
    } else {
        spec_digits_value(s.drop_last()) * 10 + (s.last() as nat - '0' as nat) as nat
    }
}

/// Every character is a digit.
pub open spec fn all_digits(s: Seq<char>) -> bool {
    forall|i: int| 0 <= i < s.len() ==> is_digit(#[trigger] s[i])
}

/// The number that a text states: digits, with or without a plus sign in
/// front, of a value that fits thirty-two bits.
pub open spec fn spec_parse_u32(s: Seq<char>) -> Option<u32> {
    let digits = if s.len() > 0 && s[0] == '+' {
        s.subrange(1, s.len() as int)
    } else {
        s
    };
    if digits.len() > 0 && all_digits(digits) && spec_digits_value(digits) <= u32::MAX {
        Some(spec_digits_value(digits) as u32)
    } else {
        None
    }
}

proof fn lemma_value_grows(s: Seq<char>, k: int)
    requires
        0 <= k <= s.len(),
        all_digits(s),
    ensures
        spec_digits_value(s.subrange(0, k)) <= spec_digits_value(s),
    decreases s.len() - k,
{
    if k < s.len() {
        let longer = s.subrange(0, k + 1);
        assert(longer.drop_last() =~= s.subrange(0, k));
        assert(longer.last() == s[k]);
        assert(spec_digits_value(longer) >= spec_digits_value(s.subrange(0, k))) by (nonlinear_arith)
            requires
                spec_digits_value(longer) == spec_digits_value(s.subrange(0, k)) * 10 + (s[k] as nat
                    - '0' as nat) as nat,
        ;
        lemma_value_grows(s, k + 1);
    } else {
        assert(s.subrange(0, k) =~= s);
    }
}

/// Reads a number.
pub fn parse_u32(v: &Vec<char>) -> (r: Option<u32>)
    ensures
        r == spec_parse_u32(v@),
{
    let start: usize = if v.len() > 0 && v[0] == '+' {
        1
    } else {
        0
    };
    let ghost digits = v@.subrange(start as int, v@.len() as int);
    assert(start == 0 ==> digits =~= v@);
    if start == v.len() {
        return None;
    }
    let mut acc: u64 = 0;
    let mut i: usize = start;
    assert(digits.subrange(0, 0) =~= Seq::<char>::empty());
    while i < v.len()
        invariant
            start <= i <= v.len(),
            start < v.len(),
            digits == v@.subrange(start as int, v@.len() as int),
            digits == if v@.len() > 0 && v@[0] == '+' {
                v@.subrange(1, v@.len() as int)
            } else {
                v@
            },
            forall|j: int| 0 <= j < i - start ==> is_digit(#[trigger] digits[j]),
            acc == spec_digits_value(digits.subrange(0, i - start)),
            acc <= u32::MAX,
        decreases v.len() - i,
    {
        let c = v[i];
        assert(digits[i - start] == c);
        if !('0' <= c && c <= '9') {
            assert(!is_digit(digits[(i - start) as int]));
            assert(!all_digits(digits));
            return None;
        }
        let d: u64 = (c as u32 - '0' as u32) as u64;
        let ghost longer = digits.subrange(0, i - start + 1);
        assert(longer.drop_last() =~= digits.subrange(0, i - start));
        assert(longer.last() == c);
        let next: u64 = acc * 10 + d;
        assert(next == spec_digits_value(longer));
        if next > 0xffff_ffff {
            proof {
                if all_digits(digits) {
                    lemma_value_grows(digits, i - start + 1);
                }
            }
            return None;
        }
        acc = next;
        i += 1;
    }
    assert(digits.subrange(0, digits.len() as int) =~= digits);
    Some(acc as u32)
}

/// The numbers among the dot-separated parts of a text, in order; parts
/// that state no number are left out.
pub open spec fn spec_components(parts: Seq<Seq<char>>) -> Seq<u32>
    decreases parts.len(),
{
    if parts.len() == 0 {
        Seq::empty()
    } else {
        match spec_parse_u32(parts.last()) {
            Some(n) => spec_components(parts.drop_last()).push(n),
            None => spec_components(parts.drop_last()),
        }
    }
}

/// The release type that a marker stands for.
pub open spec fn spec_marker_type(marker: Seq<char>) -> ReleaseTypeView {
    let m = spec_ascii_lower(marker);
    if m == "rc"@ || m == "beta"@ || m == "alpha"@ || m == "next"@ || m == "preview"@ {
        ReleaseTypeView::Testing
    } else if m == "nightly"@ || m == "canary"@ {
        ReleaseTypeView::Unstable
    } else {
        ReleaseTypeView::Stable
    }
}

/// A capture group, when the match has it.
pub open spec fn spec_group(groups: Seq<Option<Seq<char>>>, i: int) -> Option<Seq<char>> {
    if 0 <= i < groups.len() {
        groups[i]
    } else {
        None
    }
}

/// What the groups of a match say about a version text: the first group
/// holds the number, the second the marker.
pub open spec fn spec_inspected(raw: Seq<char>, groups: Option<Seq<Option<Seq<char>>>>) -> (
    VersionView,
    ReleaseTypeView,
) {
    match groups {
        Some(g) => (
            VersionView {
                components: match spec_group(g, 1) {
                    Some(number) => spec_components(spec_split(number, '.')),
                    None => Seq::empty(),
                },
                raw,
            },
            match spec_group(g, 2) {
                Some(marker) => spec_marker_type(marker),
                None => ReleaseTypeView::Stable,
            },
        ),
        None => (VersionView { components: Seq::empty(), raw }, ReleaseTypeView::Stable),
    }
}

/// The groups of a search, when it found a match.
pub open spec fn spec_found(c: Captured) -> Option<Seq<Option<Seq<char>>>> {
    match c {
        Captured::Match(g) => Some(groups_view(g@)),
        _ => None,
    }
}

fn components_of(number: &str) -> (r: Vec<u32>)
    ensures
        r@ == spec_components(spec_split(number@, '.')),
{
    let v = to_chars(number);
    let parts = split_chars(&v, '.');
    let ghost all = chars_view(parts@);
    let mut out: Vec<u32> = Vec::new();
    let mut i: usize = 0;
    assert(all.subrange(0, 0) =~= Seq::<Seq<char>>::empty());
    while i < parts.len()
        invariant
            i <= parts.len(),
            all == chars_view(parts@),
            out@ == spec_components(all.subrange(0, i as int)),
        decreases parts.len() - i,
    {
        assert(all.subrange(0, i + 1).drop_last() =~= all.subrange(0, i as int));
        assert(all.subrange(0, i + 1).last() == parts@[i as int]@);
        if let Some(n) = parse_u32(&parts[i]) {
            out.push(n);
        }
        i += 1;
    }
    assert(all.subrange(0, all.len() as int) =~= all);
    out
}

fn marker_type(marker: &str) -> (r: ReleaseType)
    ensures
        r@ == spec_marker_type(marker@),
{
    let m = ascii_lower(&to_chars(marker));
    if chars_eq(&m, &to_chars("rc")) || chars_eq(&m, &to_chars("beta")) || chars_eq(
        &m,
        &to_chars("alpha"),
    ) || chars_eq(&m, &to_chars("next")) || chars_eq(&m, &to_chars("preview")) {
        ReleaseType::Testing
    } else if chars_eq(&m, &to_chars("nightly")) || chars_eq(&m, &to_chars("canary")) {
        ReleaseType::Unstable
    } else {
        ReleaseType::Stable
    }
}

/// Reads a version from the outcome of searching its text with the
/// version pattern.
pub fn inspect_captured(raw: &str, found: &Captured) -> (r: InspectedVersion)
    ensures
        (r.version@, r.release_type@) == spec_inspected(raw@, spec_found(*found)),
{
    match found {
        Captured::Match(g) => {
            let components = if g.len() > 1 {
                assert(groups_view(g@)[1] == opt_view(g@[1]));
                match &g[1] {
                    Some(number) => components_of(number.as_str()),
                    None => Vec::new(),
                }
            } else {
                Vec::new()
            };
            let release_type = if g.len() > 2 {
                assert(groups_view(g@)[2] == opt_view(g@[2]));
                match &g[2] {
                    Some(marker) => marker_type(marker.as_str()),
                    None => ReleaseType::Stable,
                }
            } else {
                ReleaseType::Stable
            };
            InspectedVersion {
                version: StructuredVersion { components, raw: String::from_str(raw) },
                release_type,
            }
        },
        _ => InspectedVersion {
            version: StructuredVersion { components: Vec::new(), raw: String::from_str(raw) },
            release_type: ReleaseType::Stable,
        },
    }
}

/// What the version pattern finds in a text.
pub open spec fn spec_version_groups(s: Seq<char>) -> Option<Seq<Option<Seq<char>>>> {
    if regex_valid(spec_version_pattern()) {
        regex_groups(spec_version_pattern(), s)
    } else {
        None
    }
}

/// Takes a version text apart: the numeric components of the first number
/// in it, and the release type that its marker stands for. A text without
/// a number has no components and is stable.
pub fn inspect_version(s: &str) -> (r: InspectedVersion)
    ensures
        (r.version@, r.release_type@) == spec_inspected(s@, spec_version_groups(s@)),
{
    let found = capture(
        "(?i)(?:v|version\\s*)?(\\d+(?:\\.\\d+)*)(?:[-._ ]?(rc|beta|alpha|nightly|canary|next|preview)(?:\\.?(\\d+))?)?",
        s,
    );
    inspect_captured(s, &found)
}

} // verus!
