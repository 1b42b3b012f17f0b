//! Choosing the best version for a selector.

use crate::order::{
    codes, compare_text, lemma_lex_equal, lemma_lex_transitive, spec_text_order, spec_then, Order,
};
use crate::records::{EntryView, VersionEntry, VersionList};
use crate::text::{contains_char, str_eq, to_chars};
use crate::version::{
    lemma_version_order_equal, lemma_version_order_transitive, spec_version_order, ReleaseType,
    ReleaseTypeView,
};
use crate::wildcard::{match_version_with_wildcard, spec_wildcard_match};
use vstd::prelude::*;

verus! {

/// Whether a record satisfies a target other than the catch-all word:
/// a channel name selects by release type, a target with a `*` is a
/// wildcard on the version text, anything else must equal the version text.
pub open spec fn spec_matches_specific(e: EntryView, target: Seq<char>) -> bool {
    if target == "stable"@ {
        e.release_type == ReleaseTypeView::Stable
    } else if target == "lts"@ {
        e.release_type == ReleaseTypeView::LTS
    } else if target == "testing"@ {
        e.release_type == ReleaseTypeView::Testing
    } else if target == "unstable"@ {
        e.release_type == ReleaseTypeView::Unstable
    } else if target.contains('*') {
        spec_wildcard_match(e.version.raw, target)
    } else {
        e.version.raw == target
    }
}

/// Whether a record satisfies a resolution target; `latest` accepts all.
pub open spec fn spec_matches_target(e: EntryView, target: Seq<char>) -> bool {
    target == "latest"@ || spec_matches_specific(e, target)
}

/// Whether a record satisfies a listing filter; `all` accepts all.
pub open spec fn spec_matches_listing(e: EntryView, target: Seq<char>) -> bool {
    target == "all"@ || spec_matches_specific(e, target)
}

/// Records are ranked by version, then by release date.
pub open spec fn spec_entry_order(a: EntryView, b: EntryView) -> Order {
    spec_then(
        spec_version_order(a.version, b.version),
        spec_text_order(a.release_date, b.release_date),
    )
}

/// The ranking is transitive, and strict as soon as one step is.
pub proof fn lemma_entry_order_transitive(a: EntryView, b: EntryView, c: EntryView)
    requires
        spec_entry_order(a, b) != Order::Greater,
        spec_entry_order(b, c) != Order::Greater,
    ensures
        spec_entry_order(a, c) != Order::Greater,
        (spec_entry_order(a, b) == Order::Less || spec_entry_order(b, c) == Order::Less)
            ==> spec_entry_order(a, c) == Order::Less,
{
    lemma_version_order_transitive(a.version, b.version, c.version);
    lemma_version_order_equal(a.version, b.version);
    lemma_version_order_equal(b.version, c.version);
    lemma_version_order_equal(a.version, c.version);
    if a.version == b.version && b.version == c.version {
        lemma_lex_transitive(codes(a.release_date), codes(b.release_date), codes(c.release_date));
    }
}

/// `idx` is the position of the best match: it matches, no match ranks
/// higher, and every match before it ranks strictly lower.
pub open spec fn is_best_match(list: Seq<EntryView>, target: Seq<char>, idx: int) -> bool {
    &&& 0 <= idx < list.len()
    &&& spec_matches_target(list[idx], target)
    &&& forall|j: int|
        0 <= j < list.len() && spec_matches_target(#[trigger] list[j], target)
            ==> spec_entry_order(list[j], list[idx]) != Order::Greater
    &&& forall|j: int|
        0 <= j < idx && spec_matches_target(#[trigger] list[j], target) ==> spec_entry_order(
            list[j],
            list[idx],
        ) == Order::Less
}

/// There is at most one best match.
pub proof fn lemma_best_match_unique(list: Seq<EntryView>, target: Seq<char>, i: int, j: int)
    requires
        is_best_match(list, target, i),
        is_best_match(list, target, j),
    ensures
        i == j,
{
    if i < j {
        assert(spec_entry_order(list[i], list[j]) == Order::Less);
        assert(spec_entry_order(list[j], list[i]) != Order::Greater);
        lemma_entry_order_transitive(list[i], list[j], list[i]);
        lemma_entry_order_reflexive(list[i]);
    } else if j < i {
        assert(spec_entry_order(list[j], list[i]) == Order::Less);
        assert(spec_entry_order(list[i], list[j]) != Order::Greater);
        lemma_entry_order_transitive(list[j], list[i], list[j]);
        lemma_entry_order_reflexive(list[j]);
    }
}

/// A record ranks equal to itself.
pub proof fn lemma_entry_order_reflexive(a: EntryView)
    ensures
        spec_entry_order(a, a) == Order::Equal,
{
    lemma_version_order_equal(a.version, a.version);
    lemma_lex_equal(codes(a.release_date), codes(a.release_date));
}

/// Compares two records by version, then by release date.
pub fn compare_entries(a: &VersionEntry, b: &VersionEntry) -> (r: Order)
    ensures
        r == spec_entry_order(a@, b@),
{
    match a.version.compare(&b.version) {
        Order::Equal => compare_text(a.release_date.as_str(), b.release_date.as_str()),
        o => o,
    }
}

/// Tests a record against a target other than the catch-all word.
pub fn matches_specific(v: &VersionEntry, target: &str) -> (r: bool)
    ensures
        r == spec_matches_specific(v@, target@),
{
    if str_eq(target, "stable") {
        matches!(v.release_type, ReleaseType::Stable)
    } else if str_eq(target, "lts") {
        matches!(v.release_type, ReleaseType::LTS)
    } else if str_eq(target, "testing") {
        matches!(v.release_type, ReleaseType::Testing)
    } else if str_eq(target, "unstable") {
        matches!(v.release_type, ReleaseType::Unstable)
    } else {
        let t = to_chars(target);
        if contains_char(&t, '*') {
            match_version_with_wildcard(v.version.raw.as_str(), target)
        } else {
            str_eq(v.version.raw.as_str(), target)
        }
    }
}

/// Tests a record against a resolution target.
pub fn match_target_version(v: &VersionEntry, target: &str) -> (r: bool)
    ensures
        r == spec_matches_target(v@, target@),
{
    str_eq(target, "latest") || matches_specific(v, target)
}

/// Tests a record against a listing filter.
pub fn match_version(v: &VersionEntry, target: &str) -> (r: bool)
    ensures
        r == spec_matches_listing(v@, target@),
{
    str_eq(target, "all") || matches_specific(v, target)
}

/// Picks the best record for `target`: among the records that match, the
/// one with the highest version and then the latest date; of several that
/// rank the same, the first in the list.
pub fn find_best_version(v_list: VersionList, target_version: &str) -> (r: Option<VersionEntry>)
    ensures
        match r {
            Some(e) => exists|idx: int|
                is_best_match(v_list@, target_version@, idx) && e@ == v_list@[idx],
            None => forall|j: int|
                0 <= j < v_list@.len() ==> !spec_matches_target(
                    #[trigger] v_list@[j],
                    target_version@,
                ),
        },
{
    let ghost list = v_list@;
    let ghost target = target_version@;
    let mut best: Option<usize> = None;
    let mut i: usize = 0;
    let n = v_list.versions.len();
    while i < n
        invariant
            i <= n,
            n == v_list.versions.len(),
            list == v_list@,
            list.len() == n,
            target == target_version@,
            match best {
                Some(b) => {
                    &&& b < i
                    &&& spec_matches_target(list[b as int], target)
                    &&& forall|j: int|
                        0 <= j < i && spec_matches_target(#[trigger] list[j], target)
                            ==> spec_entry_order(list[j], list[b as int]) != Order::Greater
                    &&& forall|j: int|
                        0 <= j < b && spec_matches_target(#[trigger] list[j], target)
                            ==> spec_entry_order(list[j], list[b as int]) == Order::Less
                },
                None => forall|j: int|
                    0 <= j < i ==> !spec_matches_target(#[trigger] list[j], target),
            },
        decreases n - i,
    {
        let cur = &v_list.versions[i];
        assert(list[i as int] == cur@);
        if match_target_version(cur, target_version) {
            match best {
                None => {
                    proof {
                        lemma_entry_order_reflexive(cur@);
                    }
                    best = Some(i);
                },
                Some(b) => {
                    let held = &v_list.versions[b];
                    assert(list[b as int] == held@);
                    if compare_entries(cur, held) == Order::Greater {
                        proof {
                            lemma_entry_order_flip(cur@, held@);
                            lemma_entry_order_reflexive(cur@);
                            assert forall|j: int|
                                0 <= j < i && spec_matches_target(
                                    #[trigger] list[j],
                                    target,
                                ) implies spec_entry_order(list[j], cur@) == Order::Less by {
                                lemma_entry_order_transitive(list[j], held@, cur@);
                            }
                        }
                        best = Some(i);
                    }
                },
            }
        }
        i += 1;
    }
    match best {
        Some(b) => {
            assert(is_best_match(list, target, b as int));
            Some(v_list.versions[b].duplicate())
        },
        None => None,
    }
}

/// Swapping the arguments mirrors the ranking.
pub proof fn lemma_entry_order_flip(a: EntryView, b: EntryView)
    ensures
        spec_entry_order(a, b) == Order::Greater <==> spec_entry_order(b, a) == Order::Less,
        spec_entry_order(a, b) == Order::Equal <==> spec_entry_order(b, a) == Order::Equal,
{
    crate::order::lemma_lex_flip(
        crate::order::numbers(a.version.components),
        crate::order::numbers(b.version.components),
    );
    crate::order::lemma_lex_flip(
        crate::order::numbers(b.version.components),
        crate::order::numbers(a.version.components),
    );
    crate::order::lemma_lex_flip(codes(a.version.raw), codes(b.version.raw));
    crate::order::lemma_lex_flip(codes(b.version.raw), codes(a.version.raw));
    crate::order::lemma_lex_flip(codes(a.release_date), codes(b.release_date));
    crate::order::lemma_lex_flip(codes(b.release_date), codes(a.release_date));
}

} // verus!
