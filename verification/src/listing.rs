//! Ordered lists of versions: what a listing shows and what the version
//! cache keeps.

use crate::order::Order;
use crate::records::{views, EntryView, VersionEntry, VersionList};
use crate::resolve::{
    compare_entries, lemma_entry_order_flip, lemma_entry_order_transitive, match_version,
    spec_entry_order, spec_matches_listing,
};
use vstd::prelude::*;
use vstd::seq_lib::{to_multiset_build, to_multiset_insert};

verus! {

/// No record is followed by one that ranks higher.
pub open spec fn newest_first(s: Seq<EntryView>) -> bool {
    forall|a: int, b: int|
        0 <= a < b < s.len() ==> spec_entry_order(#[trigger] s[a], #[trigger] s[b]) != Order::Less
}

/// Sorts records by rank, highest first. The result holds the same
/// records as the input.
pub fn sort_newest_first(list: &Vec<VersionEntry>) -> (r: Vec<VersionEntry>)
    ensures
        newest_first(views(r@)),
        views(r@).to_multiset() == views(list@).to_multiset(),
        r.len() == list.len(),
{
    let ghost all = views(list@);
    let mut out: Vec<VersionEntry> = Vec::new();
    let mut i: usize = 0;
    assert(all.subrange(0, 0) =~= views(out@));
    while i < list.len()
        invariant
            i <= list.len(),
            out.len() == i,
            all == views(list@),
            newest_first(views(out@)),
            views(out@).to_multiset() == all.subrange(0, i as int).to_multiset(),
        decreases list.len() - i,
    {
        let e = list[i].duplicate();
        let ghost ev = e@;
        let ghost sorted = views(out@);
        let mut p: usize = 0;
        while p < out.len() && compare_entries(&out[p], &e) != Order::Less
            invariant
                p <= out.len(),
                sorted == views(out@),
                ev == e@,
                forall|j: int| 0 <= j < p ==> spec_entry_order(#[trigger] sorted[j], ev)
                    != Order::Less,
            decreases out.len() - p,
        {
            assert(sorted[p as int] == out@[p as int]@);
            p += 1;
        }
        proof {
            if p < out.len() {
                assert(sorted[p as int] == out@[p as int]@);
                assert(spec_entry_order(sorted[p as int], ev) == Order::Less);
                assert forall|q: int| p <= q < sorted.len() implies spec_entry_order(
                    ev,
                    #[trigger] sorted[q],
                ) != Order::Less by {
                    lemma_entry_order_flip(ev, sorted[q]);
                    lemma_entry_order_flip(sorted[q], sorted[p as int]);
                    if q > p {
                        assert(spec_entry_order(sorted[p as int], sorted[q]) != Order::Less);
                        lemma_entry_order_flip(sorted[p as int], sorted[q]);
                        lemma_entry_order_transitive(sorted[q], sorted[p as int], ev);
                    }
                }
            }
        }
        out.insert(p, e);
        proof {
            let after = views(out@);
            assert(after =~= sorted.insert(p as int, ev));
            to_multiset_insert(sorted, p as int, ev);
            let seen = all.subrange(0, i as int);
            let next = all.subrange(0, i + 1);
            assert(next =~= seen.push(ev));
            to_multiset_build(seen, ev);
            assert forall|a: int, b: int| 0 <= a < b < after.len() implies spec_entry_order(
                #[trigger] after[a],
                #[trigger] after[b],
            ) != Order::Less by {
                if b < p {
                    assert(after[a] == sorted[a] && after[b] == sorted[b]);
                } else if b == p {
                    assert(after[a] == sorted[a]);
                } else if a < p {
                    assert(after[a] == sorted[a] && after[b] == sorted[b - 1]);
                } else if a == p {
                    assert(after[b] == sorted[b - 1]);
                } else {
                    assert(after[a] == sorted[a - 1] && after[b] == sorted[b - 1]);
                }
            }
        }
        i += 1;
    }
    assert(all.subrange(0, all.len() as int) =~= all);
    out
}

/// The records of a list that pass a listing filter, in their order.
pub open spec fn spec_filtered(list: Seq<EntryView>, target: Seq<char>) -> Seq<EntryView>
    decreases list.len(),
{
    if list.len() == 0 {
        list
    } else if spec_matches_listing(list.last(), target) {
        spec_filtered(list.drop_last(), target).push(list.last())
    } else {
        spec_filtered(list.drop_last(), target)
    }
}

/// The records of a list that pass a listing filter.
pub fn filter_versions(list: &Vec<VersionEntry>, target: &str) -> (r: Vec<VersionEntry>)
    ensures
        views(r@) == spec_filtered(views(list@), target@),
{
    let ghost all = views(list@);
    let mut out: Vec<VersionEntry> = Vec::new();
    let mut i: usize = 0;
    assert(all.subrange(0, 0) =~= Seq::<EntryView>::empty());
    assert(views(out@) =~= Seq::<EntryView>::empty());
    while i < list.len()
        invariant
            i <= list.len(),
            all == views(list@),
            views(out@) == spec_filtered(all.subrange(0, i as int), target@),
        decreases list.len() - i,
    {
        assert(all.subrange(0, i + 1).drop_last() =~= all.subrange(0, i as int));
        assert(all.subrange(0, i + 1).last() == list@[i as int]@);
        if match_version(&list[i], target) {
            let ghost before = views(out@);
            out.push(list[i].duplicate());
            assert(views(out@) =~= before.push(list@[i as int]@));
        }
        i += 1;
    }
    assert(all.subrange(0, all.len() as int) =~= all);
    out
}

/// The rows of a listing: the records that pass the filter, highest rank
/// first; only the first of them when the listing is truncated.
pub fn listing_rows(v_list: &VersionList, target_version: &str, truncate: bool) -> (r: Vec<
    VersionEntry,
>)
    ensures
        newest_first(views(r@)),
        !truncate ==> views(r@).to_multiset() == spec_filtered(
            v_list@,
            target_version@,
        ).to_multiset(),
        truncate ==> r.len() <= 1 && (r.len() == 0 <==> spec_filtered(
            v_list@,
            target_version@,
        ).len() == 0),
        truncate && r.len() == 1 ==> spec_filtered(v_list@, target_version@).contains(r@[0]@)
            && forall|j: int|
            0 <= j < spec_filtered(v_list@, target_version@).len() ==> spec_entry_order(
                r@[0]@,
                #[trigger] spec_filtered(v_list@, target_version@)[j],
            ) != Order::Less,
{
    let kept = filter_versions(&v_list.versions, target_version);
    let sorted = sort_newest_first(&kept);
    if truncate && sorted.len() > 0 {
        let ghost sv = views(sorted@);
        let ghost kv = views(kept@);
        let mut first: Vec<VersionEntry> = Vec::new();
        first.push(sorted[0].duplicate());
        proof {
            broadcast use vstd::seq_lib::group_to_multiset_ensures;

            assert(sv[0] == sorted@[0]@);
            assert(sv.to_multiset().count(sv[0]) > 0);
            assert(kv.contains(sv[0]));
            assert forall|j: int| 0 <= j < kv.len() implies spec_entry_order(
                sv[0],
                #[trigger] kv[j],
            ) != Order::Less by {
                assert(kv.to_multiset().count(kv[j]) > 0);
                assert(sv.contains(kv[j]));
                let q = choose|q: int| 0 <= q < sv.len() && sv[q] == kv[j];
                if q > 0 {
                    assert(spec_entry_order(sv[0], sv[q]) != Order::Less);
                } else {
                    crate::resolve::lemma_entry_order_reflexive(sv[0]);
                }
            }
            assert(views(first@) =~= seq![sv[0]]);
        }
        first
    } else {
        proof {
            if truncate {
                assert(views(sorted@).len() == 0);
                assert(views(kept@).len() == sorted.len());
            }
        }
        sorted
    }
}

/// What a sync keeps of the versions that a recipe reported: nothing when
/// there are none, else the versions in order, highest rank first.
pub fn versions_to_cache(versions: &Vec<VersionEntry>) -> (r: Option<VersionList>)
    ensures
        r.is_some() == (versions.len() > 0),
        r.is_some() ==> newest_first(r.unwrap()@) && r.unwrap()@.to_multiset() == views(
            versions@,
        ).to_multiset(),
{
    if versions.len() == 0 {
        None
    } else {
        Some(VersionList { versions: sort_newest_first(versions) })
    }
}

} // verus!
