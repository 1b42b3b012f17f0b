//! Maps keyed by text, kept in ascending order of their keys.

use crate::order::{
    codes, compare_text, lemma_codes_injective, lemma_lex_equal, lemma_lex_flip,
    lemma_lex_transitive, spec_text_order, Order,
};
use vstd::prelude::*;

verus! {

/// The keys ascend strictly; in particular no key occurs twice.
pub open spec fn ascending<W>(e: Seq<(Seq<char>, W)>) -> bool {
    forall|i: int, j: int|
        0 <= i < j < e.len() ==> spec_text_order((#[trigger] e[i]).0, (#[trigger] e[j]).0)
            == Order::Less
}

/// `key` has an entry.
pub open spec fn has_key<W>(e: Seq<(Seq<char>, W)>, key: Seq<char>) -> bool {
    exists|i: int| 0 <= i < e.len() && (#[trigger] e[i]).0 == key
}

/// The value stored under `key`.
pub open spec fn spec_get<W>(e: Seq<(Seq<char>, W)>, key: Seq<char>) -> Option<W> {
    if has_key(e, key) {
        Some(e[choose|i: int| 0 <= i < e.len() && (#[trigger] e[i]).0 == key].1)
    } else {
        None
    }
}

/// The entries as a mathematical map.
pub open spec fn as_map<W>(e: Seq<(Seq<char>, W)>) -> Map<Seq<char>, W> {
    Map::new(|k: Seq<char>| has_key(e, k), |k: Seq<char>| spec_get(e, k).unwrap())
}

/// In an ascending list the entry at `i` is what `spec_get` finds for its key.
pub proof fn lemma_get_at<W>(e: Seq<(Seq<char>, W)>, i: int)
    requires
        ascending(e),
        0 <= i < e.len(),
    ensures
        spec_get(e, e[i].0) == Some(e[i].1),
{
    let k = e[i].0;
    assert(has_key(e, k));
    let j = choose|j: int| 0 <= j < e.len() && (#[trigger] e[j]).0 == k;
    lemma_lex_equal(codes(e[i].0), codes(e[j].0));
    if i < j {
        assert(spec_text_order(e[i].0, e[j].0) == Order::Less);
    } else if j < i {
        assert(spec_text_order(e[j].0, e[i].0) == Order::Less);
    }
}

/// Texts that compare `Equal` are the same text.
pub proof fn lemma_text_order_equal(a: Seq<char>, b: Seq<char>)
    ensures
        (spec_text_order(a, b) == Order::Equal) <==> (a == b),
{
    lemma_lex_equal(codes(a), codes(b));
    if codes(a) == codes(b) {
        lemma_codes_injective(a, b);
    }
}

/// A map from text to values of type `V`.
#[derive(Debug, Clone)]
pub struct SortedMap<V: View> {
    pub entries: Vec<(String, V)>,
}

/// A map from text to text.
pub type TextMap = SortedMap<String>;

impl<V: View> View for SortedMap<V> {
    type V = Seq<(Seq<char>, V::V)>;

    open spec fn view(&self) -> Seq<(Seq<char>, V::V)> {
        Seq::new(self.entries@.len(), |i: int| (self.entries@[i].0@, self.entries@[i].1@))
    }
}

impl<V: View> SortedMap<V> {
    /// The keys ascend strictly.
    pub open spec fn wf(&self) -> bool {
        ascending(self@)
    }

    /// The empty map.
    pub fn new() -> (r: Self)
        ensures
            r.wf(),
            r@.len() == 0,
    {
        SortedMap { entries: Vec::new() }
    }

    /// The number of entries.
    pub fn len(&self) -> (n: usize)
        ensures
            n == self@.len(),
    {
        self.entries.len()
    }

    /// Tells whether the keys ascend strictly. A map that was put together
    /// entry by entry outside this module is checked with this before it is
    /// used.
    pub fn is_ordered(&self) -> (r: bool)
        ensures
            r == self.wf(),
    {
        let ghost e = self@;
        if self.entries.len() < 2 {
            return true;
        }
        let mut i: usize = 1;
        while i < self.entries.len()
            invariant
                1 <= i <= self.entries.len(),
                e == self@,
                ascending(e.take(i as int)),
            decreases self.entries.len() - i,
        {
            let o = compare_text(self.entries[i - 1].0.as_str(), self.entries[i].0.as_str());
            assert(e[i - 1].0 == self.entries@[i - 1].0@);
            assert(e[i as int].0 == self.entries@[i as int].0@);
            if o != Order::Less {
                return false;
            }
            proof {
                let before = e.take(i as int);
                let next = e.take(i + 1);
                assert forall|a: int, b: int| 0 <= a < b < next.len() implies spec_text_order(
                    (#[trigger] next[a]).0,
                    (#[trigger] next[b]).0,
                ) == Order::Less by {
                    if b < i {
                        assert(before[a] == next[a] && before[b] == next[b]);
                    } else if a == i - 1 {
                    } else {
                        assert(before[a] == next[a] && before[i - 1] == next[i - 1]);
                        lemma_lex_transitive(
                            codes(next[a].0),
                            codes(next[i - 1].0),
                            codes(next[b].0),
                        );
                    }
                }
            }
            i += 1;
        }
        assert(e.take(self.entries.len() as int) =~= e);
        true
    }

    /// The first position whose key is not less than `key`.
    fn lower_bound(&self, key: &str) -> (r: (usize, bool))
        requires
            self.wf(),
        ensures
            r.0 <= self@.len(),
            forall|j: int|
                0 <= j < r.0 ==> spec_text_order((#[trigger] self@[j]).0, key@) == Order::Less,
            forall|j: int|
                r.0 + (if r.1 {
                    1int
                } else {
                    0int
                }) <= j < self@.len() ==> spec_text_order(key@, (#[trigger] self@[j]).0)
                    == Order::Less,
            r.1 ==> r.0 < self@.len() && self@[r.0 as int].0 == key@,
            r.1 == has_key(self@, key@),
    {
        let mut i: usize = 0;
        let ghost e = self@;
        while i < self.entries.len()
            invariant
                i <= self.entries.len(),
                e == self@,
                ascending(e),
                forall|j: int| 0 <= j < i ==> spec_text_order((#[trigger] e[j]).0, key@)
                    == Order::Less,
            decreases self.entries.len() - i,
        {
            let o = compare_text(self.entries[i].0.as_str(), key);
            assert(e[i as int].0 == self.entries@[i as int].0@);
            if o != Order::Less {
                proof {
                    lemma_text_order_equal(e[i as int].0, key@);
                    lemma_lex_flip(codes(e[i as int].0), codes(key@));
                    lemma_lex_flip(codes(key@), codes(e[i as int].0));
                    assert forall|j: int| i < j < e.len() implies spec_text_order(
                        key@,
                        (#[trigger] e[j]).0,
                    ) == Order::Less by {
                        assert(spec_text_order(e[i as int].0, e[j].0) == Order::Less);
                        lemma_lex_transitive(codes(key@), codes(e[i as int].0), codes(e[j].0));
                    }
                    if has_key(e, key@) {
                        let j = choose|j: int| 0 <= j < e.len() && (#[trigger] e[j]).0 == key@;
                        lemma_text_order_equal(e[j].0, key@);
                        if j > i {
                            assert(spec_text_order(key@, e[j].0) == Order::Less);
                        }
                    }
                }
                return (i, o == Order::Equal);
            }
            i += 1;
        }
        proof {
            if has_key(e, key@) {
                let j = choose|j: int| 0 <= j < e.len() && (#[trigger] e[j]).0 == key@;
                lemma_text_order_equal(e[j].0, key@);
            }
        }
        (i, false)
    }

    /// `true` when `key` has an entry.
    pub fn contains_key(&self, key: &str) -> (r: bool)
        requires
            self.wf(),
        ensures
            r == has_key(self@, key@),
    {
        self.lower_bound(key).1
    }

    /// The value stored under `key`.
    pub fn get(&self, key: &str) -> (r: Option<&V>)
        requires
            self.wf(),
        ensures
            r.is_some() == has_key(self@, key@),
            r.is_some() ==> spec_get(self@, key@) == Some(r.unwrap()@),
    {
        let (i, found) = self.lower_bound(key);
        if found {
            proof {
                lemma_get_at(self@, i as int);
            }
            Some(&self.entries[i].1)
        } else {
            None
        }
    }

    /// Stores `value` under `key`, replacing what was stored there.
    pub fn insert(&mut self, key: String, value: V)
        requires
            old(self).wf(),
        ensures
            final(self).wf(),
            spec_get(final(self)@, key@) == Some(value@),
            forall|k: Seq<char>|
                k != key@ ==> spec_get(final(self)@, k) == spec_get(old(self)@, k),
            forall|k: Seq<char>|
                k != key@ ==> has_key(final(self)@, k) == has_key(old(self)@, k),
            has_key(final(self)@, key@),
            as_map(final(self)@) == as_map(old(self)@).insert(key@, value@),
    {
        let ghost before = self@;
        let ghost kv = key@;
        let ghost vv = value@;
        let (i, found) = self.lower_bound(key.as_str());
        if found {
            self.entries.set(i, (key, value));
            proof {
                let after = self@;
                assert(after =~= before.update(i as int, (kv, vv)));
                assert forall|a: int, b: int| 0 <= a < b < after.len() implies spec_text_order(
                    (#[trigger] after[a]).0,
                    (#[trigger] after[b]).0,
                ) == Order::Less by {
                    assert(after[a].0 == before[a].0);
                    assert(after[b].0 == before[b].0);
                }
                lemma_get_at(after, i as int);
                assert forall|k: Seq<char>| k != kv implies has_key(after, k) == has_key(before, k)
                    && spec_get(after, k) == spec_get(before, k) by {
                    if has_key(before, k) {
                        let j = choose|j: int| 0 <= j < before.len() && (#[trigger] before[j]).0 == k;
                        assert(after[j] == before[j]);
                        lemma_get_at(before, j);
                        lemma_get_at(after, j);
                    }
                    if has_key(after, k) {
                        let j = choose|j: int| 0 <= j < after.len() && (#[trigger] after[j]).0 == k;
                        assert(after[j] == before[j]);
                        lemma_get_at(before, j);
                        lemma_get_at(after, j);
                    }
                }
            }
        } else {
            self.entries.insert(i, (key, value));
            proof {
                let after = self@;
                assert(after =~= before.insert(i as int, (kv, vv)));
                assert forall|a: int, b: int| 0 <= a < b < after.len() implies spec_text_order(
                    (#[trigger] after[a]).0,
                    (#[trigger] after[b]).0,
                ) == Order::Less by {
                    if b < i {
                        assert(after[a] == before[a] && after[b] == before[b]);
                    } else if b == i {
                        assert(after[a] == before[a]);
                    } else if a < i {
                        assert(after[a] == before[a] && after[b] == before[b - 1]);
                    } else if a == i {
                        assert(after[b] == before[b - 1]);
                    } else {
                        assert(after[a] == before[a - 1] && after[b] == before[b - 1]);
                    }
                }
                assert(after[i as int] == (kv, vv));
                lemma_get_at(after, i as int);
                assert forall|k: Seq<char>| k != kv implies has_key(after, k) == has_key(before, k)
                    && spec_get(after, k) == spec_get(before, k) by {
                    if has_key(before, k) {
                        let j = choose|j: int| 0 <= j < before.len() && (#[trigger] before[j]).0 == k;
                        let j2 = if j < i {
                            j
                        } else {
                            j + 1
                        };
                        assert(after[j2] == before[j]);
                        lemma_get_at(before, j);
                        lemma_get_at(after, j2);
                    }
                    if has_key(after, k) {
                        let j = choose|j: int| 0 <= j < after.len() && (#[trigger] after[j]).0 == k;
                        let j2 = if j < i {
                            j
                        } else {
                            j - 1
                        };
                        assert(after[j] == before[j2]);
                        lemma_get_at(before, j2);
                        lemma_get_at(after, j);
                    }
                }
            }
        }
        assert(as_map(self@) =~= as_map(before).insert(kv, vv));
    }

    /// Removes the entry of `key`, if there is one.
    pub fn remove(&mut self, key: &str)
        requires
            old(self).wf(),
        ensures
            final(self).wf(),
            !has_key(final(self)@, key@),
            forall|k: Seq<char>|
                k != key@ ==> spec_get(final(self)@, k) == spec_get(old(self)@, k),
            forall|k: Seq<char>|
                k != key@ ==> has_key(final(self)@, k) == has_key(old(self)@, k),
            as_map(final(self)@) == as_map(old(self)@).remove(key@),
    {
        let ghost before = self@;
        let ghost kv = key@;
        let (i, found) = self.lower_bound(key);
        if found {
            self.entries.remove(i);
            proof {
                let after = self@;
                assert(after =~= before.remove(i as int));
                assert forall|a: int, b: int| 0 <= a < b < after.len() implies spec_text_order(
                    (#[trigger] after[a]).0,
                    (#[trigger] after[b]).0,
                ) == Order::Less by {
                    let a2 = if a < i {
                        a
                    } else {
                        a + 1
                    };
                    let b2 = if b < i {
                        b
                    } else {
                        b + 1
                    };
                    assert(after[a] == before[a2] && after[b] == before[b2]);
                }
                if has_key(after, kv) {
                    let j = choose|j: int| 0 <= j < after.len() && (#[trigger] after[j]).0 == kv;
                    let j2 = if j < i {
                        j
                    } else {
                        j + 1
                    };
                    assert(after[j] == before[j2]);
                    lemma_get_at(before, j2);
                    lemma_get_at(before, i as int);
                    lemma_text_order_equal(before[j2].0, before[i as int].0);
                    if j2 < i {
                        assert(spec_text_order(before[j2].0, before[i as int].0) == Order::Less);
                    } else {
                        assert(spec_text_order(before[i as int].0, before[j2].0) == Order::Less);
                        lemma_lex_flip(codes(before[i as int].0), codes(before[j2].0));
                    }
                }
                assert forall|k: Seq<char>| k != kv implies has_key(after, k) == has_key(before, k)
                    && spec_get(after, k) == spec_get(before, k) by {
                    if has_key(before, k) {
                        let j = choose|j: int| 0 <= j < before.len() && (#[trigger] before[j]).0 == k;
                        let j2 = if j < i {
                            j
                        } else {
                            j - 1
                        };
                        assert(after[j2] == before[j]);
                        lemma_get_at(before, j);
                        lemma_get_at(after, j2);
                    }
                    if has_key(after, k) {
                        let j = choose|j: int| 0 <= j < after.len() && (#[trigger] after[j]).0 == k;
                        let j2 = if j < i {
                            j
                        } else {
                            j + 1
                        };
                        assert(after[j] == before[j2]);
                        lemma_get_at(before, j2);
                        lemma_get_at(after, j);
                    }
                }
            }
        }
        assert(as_map(self@) =~= as_map(before).remove(kv));
    }
}

impl SortedMap<String> {
    /// The text stored under `key`.
    pub fn get_text(&self, key: &str) -> (r: Option<String>)
        requires
            self.wf(),
        ensures
            crate::text::opt_view(r) == spec_get(self@, key@),
    {
        match self.get(key) {
            Some(v) => Some(v.clone()),
            None => None,
        }
    }

    /// A copy of the map.
    pub fn duplicate(&self) -> (r: TextMap)
        ensures
            r@ == self@,
    {
        let mut entries: Vec<(String, String)> = Vec::new();
        let mut i: usize = 0;
        while i < self.entries.len()
            invariant
                i <= self.entries.len(),
                entries.len() == i,
                forall|j: int|
                    0 <= j < i ==> (#[trigger] entries@[j]).0@ == self.entries@[j].0@
                        && entries@[j].1@ == self.entries@[j].1@,
            decreases self.entries.len() - i,
        {
            entries.push((self.entries[i].0.clone(), self.entries[i].1.clone()));
            i += 1;
        }
        let r = SortedMap { entries };
        assert(r@ =~= self@);
        r
    }
}

} // verus!
