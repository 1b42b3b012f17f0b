//! Wildcard version patterns such as `1.15.*` or `1.*-otp-28`.
//!
//! A pattern is read component by component, the components being what
//! stands between dots. Inside a component `*` stands for any text; a
//! component that is `*` alone also absorbs all components after it.

use crate::pattern::{capture, escape, regex_groups, regex_valid, spec_escape, Captured};
use crate::text::{
    append_chars, chars_view, from_chars, join_chars, spec_join, spec_split, split_chars, to_chars,
};
use vstd::prelude::*;

verus! {

/// The pieces of a component, each quoted.
pub open spec fn spec_escaped_pieces(part: Seq<char>) -> Seq<Seq<char>> {
    let pieces = spec_split(part, '*');
    Seq::new(pieces.len(), |i: int| spec_escape(pieces[i]))
}

/// One component as a regular expression: the text between stars quoted,
/// `.*` in place of each star.
pub open spec fn spec_part_regex(part: Seq<char>) -> Seq<char> {
    spec_join(spec_escaped_pieces(part), seq!['.', '*'])
}

/// What a lone `*` component becomes: an optional dot and anything, to the
/// end of the text.
pub open spec fn spec_rest_regex() -> Seq<char> {
    seq!['(', '\\', '.', '.', '*', ')', '?', '$']
}

/// The regular expression for the components from `i` on.
pub open spec fn spec_wildcard_from(parts: Seq<Seq<char>>, i: int) -> Seq<char>
    decreases parts.len() - i,
{
    if i < 0 || i >= parts.len() {
        Seq::<char>::empty()
    } else if parts[i] == seq!['*'] {
        spec_rest_regex()
    } else {
        let dot = if i > 0 {
            seq!['\\', '.']
        } else {
            Seq::<char>::empty()
        };
        let tail = if i == parts.len() - 1 {
            seq!['$']
        } else {
            spec_wildcard_from(parts, i + 1)
        };
        dot + spec_part_regex(parts[i]) + tail
    }
}

/// The anchored regular expression of a wildcard pattern; `None` when the
/// first component is `*` alone, a pattern that every version matches.
pub open spec fn spec_wildcard_regex(pattern: Seq<char>) -> Option<Seq<char>> {
    let parts = spec_split(pattern, '.');
    if parts[0] == seq!['*'] {
        None
    } else {
        Some(seq!['^'] + spec_wildcard_from(parts, 0))
    }
}

/// Whether `version` matches the wildcard `pattern`. A pattern whose
/// regular expression does not compile matches nothing.
pub open spec fn spec_wildcard_match(version: Seq<char>, pattern: Seq<char>) -> bool {
    match spec_wildcard_regex(pattern) {
        None => true,
        Some(re) => regex_valid(re) && regex_groups(re, version) is Some,
    }
}

/// Turns one component into a regular expression.
pub fn part_to_regex(part: &Vec<char>) -> (r: Vec<char>)
    ensures
        r@ == spec_part_regex(part@),
{
    let pieces = split_chars(part, '*');
    let mut quoted: Vec<Vec<char>> = Vec::new();
    let mut i: usize = 0;
    while i < pieces.len()
        invariant
            i <= pieces.len(),
            quoted.len() == i,
            forall|j: int| 0 <= j < i ==> quoted@[j]@ == spec_escape(pieces@[j]@),
        decreases pieces.len() - i,
    {
        let text = from_chars(&pieces[i]);
        let q = escape(text.as_str());
        quoted.push(to_chars(q.as_str()));
        i += 1;
    }
    assert(chars_view(quoted@) =~= spec_escaped_pieces(part@)) by {
        assert(chars_view(pieces@) == spec_split(part@, '*'));
        assert forall|j: int| 0 <= j < quoted.len() implies chars_view(quoted@)[j]
            == spec_escaped_pieces(part@)[j] by {
            assert(chars_view(pieces@)[j] == pieces@[j]@);
        }
    }
    let mut sep: Vec<char> = Vec::new();
    sep.push('.');
    sep.push('*');
    assert(sep@ =~= seq!['.', '*']);
    join_chars(&quoted, &sep)
}

/// `true` when `v` is `*` alone.
fn is_star(v: &Vec<char>) -> (r: bool)
    ensures
        r == (v@ == seq!['*']),
{
    let r = v.len() == 1 && v[0] == '*';
    proof {
        if r {
            assert(v@ =~= seq!['*']);
        } else if v.len() == 1 {
            assert(seq!['*'][0] == '*');
        } else {
            assert(seq!['*'].len() == 1);
        }
    }
    r
}

/// Builds the anchored regular expression of a wildcard pattern.
pub fn wildcard_regex(pattern: &str) -> (r: Option<String>)
    ensures
        crate::text::opt_view(r) == spec_wildcard_regex(pattern@),
{
    let p = to_chars(pattern);
    let parts = split_chars(&p, '.');
    let ghost sp = spec_split(pattern@, '.');
    assert(sp[0] == parts@[0]@) by {
        assert(chars_view(parts@)[0] == parts@[0]@);
    }
    if is_star(&parts[0]) {
        return None;
    }
    let mut out: Vec<char> = Vec::new();
    out.push('^');
    let mut i: usize = 0;
    let n = parts.len();
    assert(out@ =~= seq!['^']);
    while i < n
        invariant
            i <= n,
            n == parts.len(),
            n >= 1,
            sp == chars_view(parts@),
            sp == spec_split(pattern@, '.'),
            sp[0] != seq!['*'],
            seq!['^'] + spec_wildcard_from(sp, 0) == out@ + spec_wildcard_from(sp, i as int),
        decreases n - i,
    {
        let part = &parts[i];
        assert(sp[i as int] == part@);
        if is_star(part) {
            let ghost before = out@;
            out.push('(');
            out.push('\\');
            out.push('.');
            out.push('.');
            out.push('*');
            out.push(')');
            out.push('?');
            out.push('$');
            assert(out@ =~= before + spec_rest_regex());
            return Some(from_chars(&out));
        }
        let ghost before = out@;
        if i > 0 {
            out.push('\\');
            out.push('.');
        }
        let body = part_to_regex(part);
        append_chars(&mut out, &body);
        if i == n - 1 {
            out.push('$');
        }
        i += 1;
        proof {
            let dot = if i - 1 > 0 {
                seq!['\\', '.']
            } else {
                Seq::<char>::empty()
            };
            if i == n {
                assert(spec_wildcard_from(sp, i as int) =~= Seq::<char>::empty());
                assert(out@ =~= before + (dot + spec_part_regex(part@) + seq!['$']));
            } else {
                assert(out@ + spec_wildcard_from(sp, i as int) =~= before + (dot
                    + spec_part_regex(part@) + spec_wildcard_from(sp, i as int)));
            }
        }
    }
    assert(spec_wildcard_from(sp, n as int) =~= Seq::<char>::empty());
    assert(out@ + Seq::<char>::empty() =~= out@);
    Some(from_chars(&out))
}

/// Tests a version against a wildcard pattern.
pub fn match_version_with_wildcard(version: &str, pattern: &str) -> (r: bool)
    ensures
        r == spec_wildcard_match(version@, pattern@),
{
    match wildcard_regex(pattern) {
        None => true,
        Some(re) => matches!(capture(re.as_str(), version), Captured::Match(_)),
    }
}

} // verus!
