//! Regular expressions, as far as the orchestrator uses them.
//!
//! Matching is done by the `regex` crate. What it answers is not restated
//! here: it is named, as a function of the expression text and the text
//! searched, and the logic built on top speaks of those names.

use crate::text::opt_view;
use vstd::prelude::*;

verus! {

/// Whether `pattern` compiles as a regular expression under the default
/// limits of `regex::Regex::new`.
pub uninterp spec fn regex_valid(pattern: Seq<char>) -> bool;

/// The number of capture groups of the compiled `pattern`, the whole match
/// included (`regex::Regex::captures_len`).
pub uninterp spec fn regex_group_count(pattern: Seq<char>) -> nat;

/// The groups of the leftmost match of the compiled `pattern` in `text`
/// (`regex::Regex::captures`): `None` when there is no match, else one entry
/// per group, `None` for a group that took no part in the match.
pub uninterp spec fn regex_groups(pattern: Seq<char>, text: Seq<char>) -> Option<
    Seq<Option<Seq<char>>>,
>;

/// Characters that `regex::escape` puts a backslash in front of.
pub open spec fn is_meta_char(c: char) -> bool {
    c == '\\' || c == '.' || c == '+' || c == '*' || c == '?' || c == '(' || c == ')' || c == '|'
        || c == '[' || c == ']' || c == '{' || c == '}' || c == '^' || c == '$' || c == '#' || c
        == '&' || c == '-' || c == '~'
}

/// `text` with a backslash in front of every meta character.
pub open spec fn spec_escape(text: Seq<char>) -> Seq<char>
    decreases text.len(),
{
    if text.len() == 0 {
        text
    } else if is_meta_char(text[0]) {
        seq!['\\', text[0]] + spec_escape(text.drop_first())
    } else {
        seq![text[0]] + spec_escape(text.drop_first())
    }
}

/// The outcome of searching a text for capture groups.
#[derive(Debug)]
pub enum Captured {
    /// The expression does not compile.
    Invalid,
    /// The expression compiles and has no match; holds its group count.
    NoMatch(usize),
    /// The groups of the leftmost match.
    Match(Vec<Option<String>>),
}

/// The contents of a list of optional strings.
pub open spec fn groups_view(v: Seq<Option<String>>) -> Seq<Option<Seq<char>>> {
    Seq::new(v.len(), |i: int| opt_view(v[i]))
}

/// Quotes `text` so that it matches literally inside a regular expression.
///
/// Trusted: stands for `regex::escape`, which copies the text and puts a
/// backslash in front of each of the eighteen meta characters.
#[verifier::external_body]
pub(crate) fn escape(text: &str) -> (r: String)
    ensures
        r@ == spec_escape(text@),
{
    regex::escape(text)
}

/// Compiles `pattern` and extracts the capture groups of its leftmost match
/// in `text`.
///
/// Trusted: stands for `regex::Regex::new`, `regex::Regex::captures` and
/// `regex::Regex::captures_len`. The three outcomes are told apart as the
/// crate reports them; the groups and the group count are named.
#[verifier::external_body]
pub(crate) fn capture(pattern: &str, text: &str) -> (r: Captured)
    ensures
        match r {
            Captured::Invalid => !regex_valid(pattern@),
            Captured::NoMatch(n) => regex_valid(pattern@) && regex_groups(pattern@, text@)
                is None && n == regex_group_count(pattern@),
            Captured::Match(g) => regex_valid(pattern@) && regex_groups(pattern@, text@)
                == Some(groups_view(g@)),
        },
{
    match regex::Regex::new(pattern) {
        Err(_) => Captured::Invalid,
        Ok(re) => match re.captures(text) {
            None => Captured::NoMatch(re.captures_len()),
            Some(c) => Captured::Match(
                c.iter().map(|m| m.map(|x| x.as_str().to_string())).collect(),
            ),
        },
    }
}

} // verus!
