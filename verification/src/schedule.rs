//! The build order: every package after the packages it depends on.

use crate::error::{BuildError, ErrorView};
use crate::graph::{adj_wf, earlier, edge, sort_vertices};
use crate::records::{EntryView, VersionEntry};
use crate::text::{str_eq, strings_view};
use vstd::prelude::*;

verus! {

/// A selector resolved to a concrete version record and its repository.
#[derive(Debug, Clone)]
pub struct ResolvedPackage {
    pub query: String,
    pub version: VersionEntry,
    pub repo_name: String,
}

/// The mathematical content of a resolved package.
pub struct ResolvedView {
    pub query: Seq<char>,
    pub version: EntryView,
    pub repo_name: Seq<char>,
}

impl View for ResolvedPackage {
    type V = ResolvedView;

    open spec fn view(&self) -> ResolvedView {
        ResolvedView { query: self.query@, version: self.version@, repo_name: self.repo_name@ }
    }
}

/// The resolved packages of a build, at most one per selector.
#[derive(Debug, Clone)]
pub struct ResolvedSet {
    pub entries: Vec<ResolvedPackage>,
}

impl View for ResolvedSet {
    type V = Seq<ResolvedView>;

    open spec fn view(&self) -> Seq<ResolvedView> {
        crate::records::views(self.entries@)
    }
}

/// No selector occurs twice.
pub open spec fn distinct_queries(s: Seq<ResolvedView>) -> bool {
    forall|i: int, j: int|
        0 <= i < s.len() && 0 <= j < s.len() && i != j ==> (#[trigger] s[i]).query != (
        #[trigger] s[j]).query
}

/// `key` is one of the resolved selectors.
pub open spec fn has_query(s: Seq<ResolvedView>, key: Seq<char>) -> bool {
    exists|i: int| 0 <= i < s.len() && (#[trigger] s[i]).query == key
}

/// The selectors a record depends on.
pub open spec fn dep_names(e: EntryView) -> Seq<Seq<char>> {
    Seq::new(e.build_dependencies.len(), |k: int| e.build_dependencies[k].name)
}

/// The package resolved for `a` declares a dependency on `b`.
pub open spec fn declared(s: Seq<ResolvedView>, a: Seq<char>, b: Seq<char>) -> bool {
    exists|i: int|
        0 <= i < s.len() && (#[trigger] s[i]).query == a && dep_names(s[i].version).contains(b)
}

/// Some resolved package declares a dependency on `name`.
pub open spec fn is_dependency(s: Seq<ResolvedView>, name: Seq<char>) -> bool {
    exists|a: Seq<char>| #[trigger] declared(s, a, name)
}

/// `name` is a resolved selector or a declared dependency.
pub open spec fn mentioned(s: Seq<ResolvedView>, name: Seq<char>) -> bool {
    has_query(s, name) || is_dependency(s, name)
}

/// `order` is a build order: it lists each resolved selector and each
/// declared dependency once, nothing else, and every dependency before
/// what depends on it.
pub open spec fn is_build_order(s: Seq<ResolvedView>, order: Seq<Seq<char>>) -> bool {
    &&& order.no_duplicates()
    &&& forall|p: int| 0 <= p < order.len() ==> mentioned(s, #[trigger] order[p])
    &&& forall|i: int| 0 <= i < s.len() ==> order.contains((#[trigger] s[i]).query)
    &&& forall|a: Seq<char>, b: Seq<char>| #[trigger] declared(s, a, b) ==> order.contains(b)
    &&& forall|p: int, q: int|
        0 <= p < order.len() && 0 <= q < order.len() && declared(
            s,
            #[trigger] order[p],
            #[trigger] order[q],
        ) ==> q < p
}

/// `path` walks a cycle of declared dependencies: each entry depends on
/// the next, and the last on the first.
pub open spec fn is_dependency_cycle(s: Seq<ResolvedView>, path: Seq<Seq<char>>) -> bool {
    &&& path.len() > 0
    &&& forall|k: int| 0 <= k < path.len() - 1 ==> declared(s, #[trigger] path[k], path[k + 1])
    &&& declared(s, path.last(), path[0])
}

impl ResolvedSet {
    /// No selector occurs twice.
    pub open spec fn wf(&self) -> bool {
        distinct_queries(self@)
    }

    /// The empty set.
    pub fn new() -> (r: ResolvedSet)
        ensures
            r.wf(),
            r@.len() == 0,
    {
        ResolvedSet { entries: Vec::new() }
    }

    /// The position of `query`, if it is resolved.
    pub fn position(&self, query: &str) -> (r: Option<usize>)
        ensures
            match r {
                Some(i) => i < self@.len() && self@[i as int].query == query@,
                None => !has_query(self@, query@),
            },
    {
        let mut i: usize = 0;
        while i < self.entries.len()
            invariant
                i <= self.entries.len(),
                forall|j: int| 0 <= j < i ==> (#[trigger] self@[j]).query != query@,
            decreases self.entries.len() - i,
        {
            if str_eq(self.entries[i].query.as_str(), query) {
                return Some(i);
            }
            i += 1;
        }
        None
    }

    /// `true` when `query` is resolved.
    pub fn contains_key(&self, query: &str) -> (r: bool)
        ensures
            r == has_query(self@, query@),
    {
        self.position(query).is_some()
    }

    /// The package resolved for `query`.
    pub fn get(&self, query: &str) -> (r: Option<&ResolvedPackage>)
        ensures
            r.is_some() == has_query(self@, query@),
            r.is_some() ==> r.unwrap()@.query == query@ && self@.contains(r.unwrap()@),
    {
        match self.position(query) {
            Some(i) => {
                assert(self@[i as int] == self.entries@[i as int]@);
                Some(&self.entries[i])
            },
            None => None,
        }
    }

    /// Records what `query` resolved to, replacing an earlier record for
    /// the same selector.
    pub fn insert(&mut self, query: String, version: VersionEntry, repo_name: String)
        requires
            old(self).wf(),
        ensures
            final(self).wf(),
            has_query(final(self)@, query@),
            !has_query(old(self)@, query@) ==> final(self)@ == old(self)@.push(
                ResolvedView { query: query@, version: version@, repo_name: repo_name@ },
            ),
            has_query(old(self)@, query@) ==> exists|i: int|
                0 <= i < old(self)@.len() && (#[trigger] old(self)@[i]).query == query@
                    && final(self)@ == old(self)@.update(
                    i,
                    ResolvedView { query: query@, version: version@, repo_name: repo_name@ },
                ),
            forall|key: Seq<char>|
                key != query@ ==> has_query(final(self)@, key) == has_query(old(self)@, key),
            final(self)@.contains(
                ResolvedView { query: query@, version: version@, repo_name: repo_name@ },
            ),
            forall|i: int|
                0 <= i < old(self)@.len() && (#[trigger] old(self)@[i]).query != query@
                    ==> final(self)@.contains(old(self)@[i]),
            forall|i: int|
                0 <= i < final(self)@.len() ==> (#[trigger] final(self)@[i]) == (ResolvedView {
                    query: query@,
                    version: version@,
                    repo_name: repo_name@,
                }) || old(self)@.contains(final(self)@[i]),
    {
        let ghost before = self@;
        let ghost fresh = ResolvedView { query: query@, version: version@, repo_name: repo_name@ };
        let found = self.position(query.as_str());
        let item = ResolvedPackage { query, version, repo_name };
        match found {
            Some(i) => {
                self.entries.set(i, item);
                proof {
                    let after = self@;
                    assert(after =~= before.update(i as int, fresh));
                    assert(after[i as int] == fresh);
                    assert forall|key: Seq<char>| key != fresh.query implies has_query(after, key)
                        == has_query(before, key) by {
                        if has_query(after, key) {
                            let j = choose|j: int| 0 <= j < after.len() && after[j].query == key;
                            assert(before[j].query == key);
                        }
                        if has_query(before, key) {
                            let j = choose|j: int|
                                0 <= j < before.len() && before[j].query == key;
                            assert(after[j].query == key);
                        }
                    }
                    assert forall|j: int|
                        0 <= j < before.len() && (#[trigger] before[j]).query
                            != fresh.query implies after.contains(before[j]) by {
                        assert(after[j] == before[j]);
                    }
                    assert forall|j: int| 0 <= j < after.len() implies (#[trigger] after[j])
                        == fresh || before.contains(after[j]) by {
                        if j != i {
                            assert(before[j] == after[j]);
                        }
                    }
                }
            },
            None => {
                self.entries.push(item);
                proof {
                    let after = self@;
                    assert(after =~= before.push(fresh));
                    assert(after[before.len() as int] == fresh);
                    assert forall|key: Seq<char>| key != fresh.query implies has_query(after, key)
                        == has_query(before, key) by {
                        if has_query(after, key) {
                            let j = choose|j: int| 0 <= j < after.len() && after[j].query == key;
                            assert(before[j].query == key);
                        }
                        if has_query(before, key) {
                            let j = choose|j: int|
                                0 <= j < before.len() && before[j].query == key;
                            assert(after[j].query == key);
                        }
                    }
                    assert forall|j: int|
                        0 <= j < before.len() && (#[trigger] before[j]).query
                            != fresh.query implies after.contains(before[j]) by {
                        assert(after[j] == before[j]);
                    }
                    assert forall|j: int| 0 <= j < after.len() implies (#[trigger] after[j])
                        == fresh || before.contains(after[j]) by {
                        if j < before.len() {
                            assert(before[j] == after[j]);
                        }
                    }
                }
            },
        }
    }
}

/// How the vertices of the dependency graph are numbered: the resolved
/// packages first, in their order, then the dependencies that are not
/// resolved; `adj` lists for each vertex the numbers of what it depends on.
pub open spec fn numbering_ok(
    s: Seq<ResolvedView>,
    names: Seq<Seq<char>>,
    adj: Seq<Vec<usize>>,
) -> bool {
    &&& names.len() == adj.len()
    &&& names.len() >= s.len()
    &&& names.no_duplicates()
    &&& adj_wf(adj)
    &&& forall|i: int| 0 <= i < s.len() ==> #[trigger] names[i] == s[i].query
    &&& forall|i: int|
        0 <= i < s.len() ==> (#[trigger] adj[i])@.len() == dep_names(s[i].version).len()
    &&& forall|i: int, k: int|
        0 <= i < s.len() && 0 <= k < adj[i]@.len() ==> names[(#[trigger] adj[i]@[k]) as int]
            == dep_names(s[i].version)[k]
    &&& forall|i: int| s.len() <= i < adj.len() ==> (#[trigger] adj[i])@.len() == 0
    &&& forall|i: int| s.len() <= i < names.len() ==> is_dependency(s, #[trigger] names[i])
}

/// The position of `name` in `names`.
fn index_of_name(names: &Vec<String>, name: &str) -> (r: Option<usize>)
    ensures
        match r {
            Some(i) => i < names.len() && names@[i as int]@ == name@,
            None => forall|j: int| 0 <= j < names.len() ==> names@[j]@ != name@,
        },
{
    let mut i: usize = 0;
    while i < names.len()
        invariant
            i <= names.len(),
            forall|j: int| 0 <= j < i ==> names@[j]@ != name@,
        decreases names.len() - i,
    {
        if str_eq(names[i].as_str(), name) {
            return Some(i);
        }
        i += 1;
    }
    None
}

/// Numbers the vertices of the dependency graph.
fn number_vertices(resolved: &ResolvedSet) -> (r: (Vec<String>, Vec<Vec<usize>>))
    requires
        resolved.wf(),
    ensures
        numbering_ok(resolved@, strings_view(r.0@), r.1@),
{
    let ghost s = resolved@;
    let n = resolved.entries.len();
    let mut names: Vec<String> = Vec::new();
    let mut adj: Vec<Vec<usize>> = Vec::new();
    let mut i: usize = 0;
    while i < n
        invariant
            i <= n,
            n == resolved.entries.len(),
            s == resolved@,
            names.len() == i,
            adj.len() == i,
            forall|j: int| 0 <= j < i ==> (#[trigger] names@[j])@ == s[j].query,
            forall|j: int| 0 <= j < i ==> (#[trigger] adj@[j])@.len() == 0,
        decreases n - i,
    {
        assert(s[i as int] == resolved.entries@[i as int]@);
        names.push(resolved.entries[i].query.clone());
        adj.push(Vec::new());
        i += 1;
    }
    proof {
        let nv = strings_view(names@);
        assert forall|a: int, b: int| 0 <= a < nv.len() && 0 <= b < nv.len() && a != b implies nv[a]
            != nv[b] by {
            assert(names@[a]@ == s[a].query);
            assert(names@[b]@ == s[b].query);
        }
    }
    let mut i: usize = 0;
    while i < n
        invariant
            i <= n,
            n == resolved.entries.len(),
            s == resolved@,
            s.len() == n,
            names.len() == adj.len(),
            names.len() >= n,
            strings_view(names@).no_duplicates(),
            adj_wf(adj@),
            forall|j: int| 0 <= j < n ==> (#[trigger] names@[j])@ == s[j].query,
            forall|j: int|
                0 <= j < i ==> (#[trigger] adj@[j])@.len() == dep_names(s[j].version).len(),
            forall|j: int, k: int|
                0 <= j < i && 0 <= k < adj@[j]@.len() ==> names@[(#[trigger] adj@[j]@[k]) as int]@
                    == dep_names(s[j].version)[k],
            forall|j: int| i <= j < adj.len() ==> (#[trigger] adj@[j])@.len() == 0,
            forall|j: int| n <= j < names.len() ==> is_dependency(s, (#[trigger] names@[j])@),
        decreases n - i,
    {
        let deps = &resolved.entries[i].version.build_dependencies;
        assert(s[i as int] == resolved.entries@[i as int]@);
        let ghost wanted = dep_names(s[i as int].version);
        assert(wanted.len() == deps@.len());
        let mut list: Vec<usize> = Vec::new();
        let mut k: usize = 0;
        while k < deps.len()
            invariant
                i < n,
                k <= deps.len(),
                n == resolved.entries.len(),
                s == resolved@,
                s.len() == n,
                wanted == dep_names(s[i as int].version),
                wanted.len() == deps@.len(),
                forall|x: int| 0 <= x < deps@.len() ==> (#[trigger] deps@[x]).name@ == wanted[x],
                names.len() == adj.len(),
                names.len() >= n,
                strings_view(names@).no_duplicates(),
                adj_wf(adj@),
                list.len() == k,
                forall|x: int| 0 <= x < k ==> (#[trigger] list@[x]) < names.len(),
                forall|x: int| 0 <= x < k ==> names@[(#[trigger] list@[x]) as int]@ == wanted[x],
                forall|j: int| 0 <= j < n ==> (#[trigger] names@[j])@ == s[j].query,
                forall|j: int|
                    0 <= j < i ==> (#[trigger] adj@[j])@.len() == dep_names(s[j].version).len(),
                forall|j: int, k: int|
                    0 <= j < i && 0 <= k < adj@[j]@.len() ==> names@[(
                    #[trigger] adj@[j]@[k]) as int]@ == dep_names(s[j].version)[k],
                forall|j: int| i <= j < adj.len() ==> (#[trigger] adj@[j])@.len() == 0,
                forall|j: int|
                    n <= j < names.len() ==> is_dependency(s, (#[trigger] names@[j])@),
            decreases deps.len() - k,
        {
            let d = &deps[k].name;
            assert(d@ == wanted[k as int]);
            match index_of_name(&names, d.as_str()) {
                Some(x) => {
                    list.push(x);
                },
                None => {
                    let ghost old_names = names@;
                    let ghost old_adj = adj@;
                    names.push(d.clone());
                    adj.push(Vec::new());
                    list.push(names.len() - 1);
                    proof {
                        let nv = strings_view(names@);
                        let ov = strings_view(old_names);
                        assert forall|a: int, b: int|
                            0 <= a < nv.len() && 0 <= b < nv.len() && a != b implies nv[a]
                            != nv[b] by {
                            if a < ov.len() && b < ov.len() {
                                assert(ov[a] != ov[b]);
                            } else if a < ov.len() {
                                assert(old_names[a]@ != d@);
                            } else {
                                assert(old_names[b]@ != d@);
                            }
                        }
                        assert(declared(s, s[i as int].query, d@)) by {
                            assert(wanted.contains(d@));
                        }
                        assert forall|j: int| n <= j < names.len() implies is_dependency(
                            s,
                            (#[trigger] names@[j])@,
                        ) by {
                            if j < old_names.len() {
                                assert(names@[j] == old_names[j]);
                                assert(is_dependency(s, old_names[j]@));
                            }
                        }
                        assert forall|j: int, k: int|
                            0 <= j < adj.len() && 0 <= k < adj@[j]@.len() implies (
                        #[trigger] adj@[j]@[k]) < adj.len() by {
                            if j < old_adj.len() {
                                assert(adj@[j] == old_adj[j]);
                                assert(old_adj[j]@[k] < old_adj.len());
                            }
                        }
                        assert forall|j: int, k: int|
                            0 <= j < i && 0 <= k < adj@[j]@.len() implies names@[(
                        #[trigger] adj@[j]@[k]) as int]@ == dep_names(s[j].version)[k] by {
                            assert(adj@[j] == old_adj[j]);
                            assert(old_adj[j]@[k] < old_adj.len());
                        }
                        assert forall|x: int| 0 <= x < k implies names@[(
                        #[trigger] list@[x]) as int]@ == wanted[x] by {
                            assert(names@[list@[x] as int] == old_names[list@[x] as int]);
                        }
                    }
                },
            }
            k += 1;
        }
        let ghost old_adj = adj@;
        adj.set(i, list);
        proof {
            assert forall|j: int, k: int|
                0 <= j < adj.len() && 0 <= k < adj@[j]@.len() implies (#[trigger] adj@[j]@[k])
                < adj.len() by {
                if j != i {
                    assert(adj@[j] == old_adj[j]);
                    assert(old_adj[j]@[k] < old_adj.len());
                }
            }
            assert forall|j: int, k: int|
                0 <= j < i + 1 && 0 <= k < adj@[j]@.len() implies names@[(
            #[trigger] adj@[j]@[k]) as int]@ == dep_names(s[j].version)[k] by {
                if j != i {
                    assert(adj@[j] == old_adj[j]);
                }
            }
        }
        i += 1;
    }
    proof {
        let nv = strings_view(names@);
        assert forall|j: int| 0 <= j < s.len() implies #[trigger] nv[j] == s[j].query by {
            assert(names@[j]@ == s[j].query);
        }
        assert forall|j: int, k: int|
            0 <= j < s.len() && 0 <= k < adj@[j]@.len() implies nv[(#[trigger] adj@[j]@[k]) as int]
            == dep_names(s[j].version)[k] by {
            assert(adj@[j]@[k] < adj.len());
        }
        assert forall|j: int| s.len() <= j < nv.len() implies is_dependency(
            s,
            #[trigger] nv[j],
        ) by {
            assert(is_dependency(s, names@[j]@));
        }
    }
    (names, adj)
}

/// The names of a list of vertices.
fn names_of(names: &Vec<String>, list: &Vec<usize>) -> (r: Vec<String>)
    requires
        forall|p: int| 0 <= p < list.len() ==> (#[trigger] list@[p]) < names.len(),
    ensures
        r.len() == list.len(),
        forall|p: int| 0 <= p < list.len() ==> (#[trigger] r@[p])@ == names@[list@[p] as int]@,
{
    let mut r: Vec<String> = Vec::new();
    let mut p: usize = 0;
    while p < list.len()
        invariant
            p <= list.len(),
            r.len() == p,
            forall|q: int| 0 <= q < list.len() ==> (#[trigger] list@[q]) < names.len(),
            forall|q: int| 0 <= q < p ==> (#[trigger] r@[q])@ == names@[list@[q] as int]@,
        decreases list.len() - p,
    {
        r.push(names[list[p]].clone());
        p += 1;
    }
    r
}

proof fn lemma_edge_is_declared(
    s: Seq<ResolvedView>,
    names: Seq<Seq<char>>,
    adj: Seq<Vec<usize>>,
    u: usize,
    v: usize,
)
    requires
        numbering_ok(s, names, adj),
        edge(adj, u, v),
    ensures
        u < s.len(),
        v < names.len(),
        declared(s, names[u as int], names[v as int]),
{
    let k = choose|k: int| 0 <= k < adj[u as int]@.len() && adj[u as int]@[k] == v;
    assert(adj[u as int]@.len() > 0);
    assert(u < s.len());
    assert(names[adj[u as int]@[k] as int] == dep_names(s[u as int].version)[k]);
    assert(dep_names(s[u as int].version).contains(names[v as int]));
    assert(s[u as int].query == names[u as int]);
}

/// Orders the resolved packages for building: dependencies first.
///
/// The order lists every resolved selector and every declared dependency
/// exactly once. When the declared dependencies contain a cycle, no order
/// exists and the error walks one cycle.
pub fn topological_sort(resolved: &ResolvedSet) -> (r: Result<Vec<String>, BuildError>)
    requires
        resolved.wf(),
    ensures
        match r {
            Ok(order) => is_build_order(resolved@, strings_view(order@)),
            Err(e) => match e@ {
                ErrorView::CircularDependency { nodes } => is_dependency_cycle(resolved@, nodes),
                _ => false,
            },
        },
{
    let ghost s = resolved@;
    let (names, adj) = number_vertices(resolved);
    let ghost nv = strings_view(names@);
    match sort_vertices(&adj) {
        Err(c) => {
            proof {
                assert forall|p: int| 0 <= p < c@.len() implies (#[trigger] c@[p])
                    < names.len() by {
                    if p < c@.len() - 1 {
                        assert(edge(adj@, c@[p], c@[p + 1]));
                    } else {
                        assert(edge(adj@, c@.last(), c@[0]));
                    }
                }
            }
            let nodes = names_of(&names, &c);
            proof {
                let path = strings_view(nodes@);
                assert forall|k: int| 0 <= k < path.len() - 1 implies declared(
                    s,
                    #[trigger] path[k],
                    path[k + 1],
                ) by {
                    assert(edge(adj@, c@[k], c@[k + 1]));
                    lemma_edge_is_declared(s, nv, adj@, c@[k], c@[k + 1]);
                    assert(nodes@[k]@ == names@[c@[k] as int]@);
                    assert(nodes@[k + 1]@ == names@[c@[k + 1] as int]@);
                }
                lemma_edge_is_declared(s, nv, adj@, c@.last(), c@[0]);
                assert(nodes@[path.len() - 1]@ == names@[c@[c@.len() - 1] as int]@);
                assert(nodes@[0]@ == names@[c@[0] as int]@);
            }
            Err(BuildError::CircularDependency { nodes })
        },
        Ok(order) => {
            let out = names_of(&names, &order);
            proof {
                let o = strings_view(out@);
                assert forall|p: int| 0 <= p < o.len() implies o[p] == nv[order@[p] as int] by {
                    assert(out@[p]@ == names@[order@[p] as int]@);
                }
                assert forall|a: int, b: int|
                    0 <= a < o.len() && 0 <= b < o.len() && a != b implies o[a] != o[b] by {
                    assert(order@[a] != order@[b]);
                    assert(nv[order@[a] as int] != nv[order@[b] as int]);
                }
                assert forall|p: int| 0 <= p < o.len() implies mentioned(s, #[trigger] o[p]) by {
                    let u = order@[p] as int;
                    if u < s.len() {
                        assert(s[u].query == o[p]);
                    } else {
                        assert(is_dependency(s, nv[u]));
                    }
                }
                assert forall|i: int| 0 <= i < s.len() implies o.contains(
                    (#[trigger] s[i]).query,
                ) by {
                    assert(order@.contains(i as usize));
                    let p = choose|p: int| 0 <= p < order@.len() && order@[p] == i as usize;
                    assert(o[p] == nv[i]);
                }
                assert forall|a: Seq<char>, b: Seq<char>| #[trigger] declared(s, a, b) implies {
                    &&& o.contains(b)
                    &&& forall|p: int, q: int|
                        0 <= p < o.len() && 0 <= q < o.len() && o[p] == a && o[q] == b ==> q
                            < p
                } by {
                    let i = choose|i: int|
                        0 <= i < s.len() && (#[trigger] s[i]).query == a && dep_names(
                            s[i].version,
                        ).contains(b);
                    let k = choose|k: int|
                        0 <= k < dep_names(s[i].version).len() && dep_names(s[i].version)[k]
                            == b;
                    let v = adj@[i]@[k];
                    assert(nv[v as int] == b);
                    assert(order@.contains(v));
                    let pv = choose|p: int| 0 <= p < order@.len() && order@[p] == v;
                    assert(o[pv] == b);
                    assert forall|p: int, q: int|
                        0 <= p < o.len() && 0 <= q < o.len() && o[p] == a && o[q]
                            == b implies q < p by {
                        assert(nv[order@[p] as int] == nv[i]);
                        assert(order@[p] == i);
                        assert(nv[order@[q] as int] == nv[v as int]);
                        assert(order@[q] == v);
                        assert(earlier(order@, p, adj@[order@[p] as int]@[k]));
                        let q2 = choose|q2: int| 0 <= q2 < p && order@[q2] == v;
                        assert(q2 == q);
                    }
                }
                assert(is_build_order(s, o));
            }
            Ok(out)
        },
    }
}

/// In a build order every step along declared dependencies leads to an
/// earlier place, so a walk along them never returns: a set of packages
/// that has a build order has no dependency cycle.
pub proof fn lemma_build_order_excludes_cycle(
    s: Seq<ResolvedView>,
    order: Seq<Seq<char>>,
    path: Seq<Seq<char>>,
)
    requires
        is_build_order(s, order),
    ensures
        !is_dependency_cycle(s, path),
{
    if is_dependency_cycle(s, path) {
        lemma_walk_falls(s, order, path, path.len() - 1);
        lemma_step_falls(s, order, path.last(), path[0]);
    }
}

/// The place of `name` in `order`.
pub open spec fn place(order: Seq<Seq<char>>, name: Seq<char>) -> int {
    choose|p: int| 0 <= p < order.len() && order[p] == name
}

/// Topological correctness: for every declared dependency of `a` on `b`,
/// `b` stands before `a` in a build order.
pub proof fn lemma_step_falls(
    s: Seq<ResolvedView>,
    order: Seq<Seq<char>>,
    a: Seq<char>,
    b: Seq<char>,
)
    requires
        is_build_order(s, order),
        declared(s, a, b),
    ensures
        0 <= place(order, b) < place(order, a) < order.len(),
        order[place(order, a)] == a,
        order[place(order, b)] == b,
{
    let i = choose|i: int|
        0 <= i < s.len() && (#[trigger] s[i]).query == a && dep_names(s[i].version).contains(b);
    assert(order.contains(s[i].query));
    assert(order.contains(b));
    let p = place(order, a);
    let q = place(order, b);
    assert(declared(s, order[p], order[q]));
}

proof fn lemma_walk_falls(
    s: Seq<ResolvedView>,
    order: Seq<Seq<char>>,
    path: Seq<Seq<char>>,
    k: int,
)
    requires
        is_build_order(s, order),
        is_dependency_cycle(s, path),
        0 <= k < path.len(),
    ensures
        place(order, path[k]) <= place(order, path[0]),
    decreases k,
{
    if k > 0 {
        lemma_walk_falls(s, order, path, k - 1);
        assert(declared(s, path[k - 1], path[k - 1 + 1]));
        lemma_step_falls(s, order, path[k - 1], path[k]);
    }
}

} // verus!
