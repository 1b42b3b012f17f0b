//! The dependency resolver: from the selectors of a workspace to the set
//! of packages to build, by following build dependencies.
//!
//! Resolving a selector and evaluating its recipe is the caller's part.
//! The resolver hands out the next selector to resolve and takes in what
//! it resolved to.

use crate::records::VersionEntry;
use crate::schedule::{
    declared, dep_names, has_query, is_build_order, mentioned, ResolvedSet, ResolvedView,
};
use crate::text::{copy_strings, opt_view, strings_view};
use vstd::prelude::*;

verus! {

/// The state of a resolution.
#[derive(Debug, Clone)]
pub struct DependencyResolver {
    /// The selectors still to look at, first in first out.
    pub queue: Vec<String>,
    /// The selector handed out and not yet answered.
    pub pending: Option<String>,
    /// What has been resolved.
    pub resolved: ResolvedSet,
}

/// Every declared dependency of a resolved package is resolved itself, or
/// waits in the queue, or is the selector being resolved.
pub open spec fn covered(
    resolved: Seq<ResolvedView>,
    queue: Seq<Seq<char>>,
    pending: Option<Seq<char>>,
) -> bool {
    forall|a: Seq<char>, b: Seq<char>| #[trigger]
        declared(resolved, a, b) ==> has_query(resolved, b) || queue.contains(b) || pending
            == Some(b)
}

/// Every declared dependency of a resolved package is resolved itself.
pub open spec fn closed(resolved: Seq<ResolvedView>) -> bool {
    forall|a: Seq<char>, b: Seq<char>| #[trigger] declared(resolved, a, b) ==> has_query(resolved, b)
}

impl DependencyResolver {
    /// No selector is resolved twice, and no dependency is lost.
    pub open spec fn wf(&self) -> bool {
        &&& self.resolved.wf()
        &&& covered(self.resolved@, strings_view(self.queue@), opt_view(self.pending))
        &&& match self.pending {
            Some(p) => !has_query(self.resolved@, p@),
            None => true,
        }
    }

    /// A resolution that starts from the selectors of a workspace.
    pub fn new(initial_packages: &Vec<String>) -> (r: DependencyResolver)
        ensures
            r.wf(),
            strings_view(r.queue@) == strings_view(initial_packages@),
            r.pending is None,
            r.resolved@.len() == 0,
    {
        DependencyResolver {
            queue: copy_strings(initial_packages),
            pending: None,
            resolved: ResolvedSet::new(),
        }
    }

    /// The next selector to resolve: the first in the queue that is not
    /// resolved yet. `None` means that the resolution is complete; the
    /// resolved set is then closed under declared dependencies.
    pub fn next_query(&mut self) -> (r: Option<String>)
        requires
            old(self).wf(),
            old(self).pending is None,
        ensures
            final(self).wf(),
            final(self).resolved@ == old(self).resolved@,
            opt_view(final(self).pending) == opt_view(r),
            match r {
                Some(q) => {
                    &&& !has_query(final(self).resolved@, q@)
                    &&& exists|k: int|
                        0 <= k < old(self).queue@.len() && old(self).queue@[k]@ == q@
                            && strings_view(final(self).queue@) == strings_view(
                            old(self).queue@,
                        ).subrange(k + 1, old(self).queue@.len() as int) && forall|j: int|
                            0 <= j < k ==> has_query(
                                old(self).resolved@,
                                #[trigger] strings_view(old(self).queue@)[j],
                            )
                },
                None => {
                    &&& final(self).queue@.len() == 0
                    &&& closed(final(self).resolved@)
                    &&& forall|j: int|
                        0 <= j < old(self).queue@.len() ==> has_query(
                            old(self).resolved@,
                            #[trigger] strings_view(old(self).queue@)[j],
                        )
                },
            },
    {
        let ghost q0 = strings_view(self.queue@);
        let ghost res = self.resolved@;
        let n = self.queue.len();
        let mut k: usize = 0;
        while k < n
            invariant
                k <= n,
                n == self.queue.len(),
                q0 == strings_view(self.queue@),
                res == self.resolved@,
                self.queue@ == old(self).queue@,
                self.resolved@ == old(self).resolved@,
                self.pending is None,
                self.wf(),
                forall|j: int| 0 <= j < k ==> has_query(res, #[trigger] q0[j]),
            decreases n - k,
        {
            assert(q0[k as int] == self.queue@[k as int]@);
            if !self.resolved.contains_key(self.queue[k].as_str()) {
                let found = self.queue[k].clone();
                let mut rest: Vec<String> = Vec::new();
                let mut i: usize = k + 1;
                while i < n
                    invariant
                        k + 1 <= i <= n,
                        n == self.queue.len(),
                        q0 == strings_view(self.queue@),
                        strings_view(rest@) == q0.subrange(k + 1, i as int),
                    decreases n - i,
                {
                    let ghost before = strings_view(rest@);
                    rest.push(self.queue[i].clone());
                    assert(strings_view(rest@) =~= before.push(q0[i as int]));
                    i += 1;
                    assert(strings_view(rest@) =~= q0.subrange(k + 1, i as int));
                }
                proof {
                    let tail = q0.subrange(k + 1, n as int);
                    assert forall|a: Seq<char>, b: Seq<char>| #[trigger]
                        declared(res, a, b) implies has_query(res, b) || tail.contains(b) || Some(
                        found@,
                    ) == Some(b) by {
                        if !has_query(res, b) {
                            assert(q0.contains(b));
                            let j = choose|j: int| 0 <= j < q0.len() && q0[j] == b;
                            if j > k {
                                assert(tail[j - k - 1] == b);
                            } else if j < k {
                                assert(has_query(res, q0[j]));
                            }
                        }
                    }
                }
                self.queue = rest;
                self.pending = Some(found.clone());
                return Some(found);
            }
            k += 1;
        }
        proof {
            assert forall|a: Seq<char>, b: Seq<char>| #[trigger] declared(res, a, b) implies has_query(
                res,
                b,
            ) by {
                if !has_query(res, b) {
                    assert(q0.contains(b));
                    let j = choose|j: int| 0 <= j < q0.len() && q0[j] == b;
                    assert(has_query(res, q0[j]));
                }
            }
        }
        self.queue = Vec::new();
        assert(strings_view(self.queue@) =~= Seq::<Seq<char>>::empty());
        None
    }

    /// Takes in what the pending selector resolved to: the package is
    /// recorded, and those of its dependencies that are not resolved are
    /// put at the end of the queue.
    pub fn supply(&mut self, query: String, concrete: VersionEntry, repo_name: String)
        requires
            old(self).wf(),
            opt_view(old(self).pending) == Some(query@),
        ensures
            final(self).wf(),
            final(self).pending is None,
            final(self).resolved@ == old(self).resolved@.push(
                ResolvedView { query: query@, version: concrete@, repo_name: repo_name@ },
            ),
            strings_view(final(self).queue@) == strings_view(old(self).queue@) + spec_new_deps(
                old(self).resolved@,
                dep_names(concrete@),
            ),
    {
        let ghost res = self.resolved@;
        let ghost q0 = strings_view(self.queue@);
        let ghost names = dep_names(concrete@);
        let mut i: usize = 0;
        assert(names.subrange(0, 0) =~= Seq::<Seq<char>>::empty());
        assert(strings_view(self.queue@) =~= q0 + spec_new_deps(res, names.subrange(0, 0)));
        while i < concrete.build_dependencies.len()
            invariant
                i <= concrete.build_dependencies.len(),
                res == self.resolved@,
                self.resolved@ == old(self).resolved@,
                self.resolved.wf(),
                self.pending == old(self).pending,
                names == dep_names(concrete@),
                strings_view(self.queue@) == q0 + spec_new_deps(res, names.subrange(0, i as int)),
            decreases concrete.build_dependencies.len() - i,
        {
            let dep = &concrete.build_dependencies[i];
            assert(names[i as int] == dep.name@) by {
                assert(concrete@.build_dependencies[i as int] == dep@);
            }
            assert(names.subrange(0, i + 1).drop_last() =~= names.subrange(0, i as int));
            assert(names.subrange(0, i + 1).last() == dep.name@);
            if !self.resolved.contains_key(dep.name.as_str()) {
                let ghost before = strings_view(self.queue@);
                self.queue.push(dep.name.clone());
                assert(strings_view(self.queue@) =~= before.push(dep.name@));
            }
            assert(strings_view(self.queue@) =~= q0 + spec_new_deps(
                res,
                names.subrange(0, i + 1),
            ));
            i += 1;
        }
        assert(names.subrange(0, names.len() as int) =~= names);
        let ghost fresh = ResolvedView { query: query@, version: concrete@, repo_name: repo_name@ };
        let ghost queue_now = strings_view(self.queue@);
        self.add_resolved(query, concrete, repo_name);
        self.pending = None;
        proof {
            let after = self.resolved@;
            assert(after =~= res.push(fresh));
            assert forall|a: Seq<char>, b: Seq<char>| #[trigger] declared(after, a, b) implies has_query(
                after,
                b,
            ) || queue_now.contains(b) by {
                let j = choose|j: int|
                    0 <= j < after.len() && (#[trigger] after[j]).query == a && dep_names(
                        after[j].version,
                    ).contains(b);
                if j < res.len() {
                    assert(after[j] == res[j]);
                    assert(declared(res, a, b));
                    if has_query(res, b) {
                        let y = choose|y: int| 0 <= y < res.len() && (#[trigger] res[y]).query == b;
                        assert(after[y].query == b);
                    } else if q0.contains(b) {
                        let y = choose|y: int| 0 <= y < q0.len() && q0[y] == b;
                        assert(queue_now[y] == b);
                    } else {
                        assert(b == fresh.query);
                        assert(after[res.len() as int].query == b);
                    }
                } else {
                    assert(names.contains(b));
                    lemma_new_deps_cover(res, names, b);
                    if has_query(res, b) {
                        let y = choose|y: int| 0 <= y < res.len() && (#[trigger] res[y]).query == b;
                        assert(after[y].query == b);
                    } else {
                        let nd = spec_new_deps(res, names);
                        let y = choose|y: int| 0 <= y < nd.len() && nd[y] == b;
                        assert(queue_now[q0.len() + y] == b);
                    }
                }
            }
        }
    }

    fn add_resolved(&mut self, query: String, concrete: VersionEntry, repo_name: String)
        requires
            old(self).resolved.wf(),
            !has_query(old(self).resolved@, query@),
        ensures
            final(self).resolved.wf(),
            final(self).queue == old(self).queue,
            final(self).pending == old(self).pending,
            final(self).resolved@ == old(self).resolved@.push(
                ResolvedView { query: query@, version: concrete@, repo_name: repo_name@ },
            ),
    {
        let ghost before = self.resolved@;
        let ghost fresh = ResolvedView { query: query@, version: concrete@, repo_name: repo_name@ };
        self.resolved.entries.push(crate::schedule::ResolvedPackage { query, version: concrete, repo_name });
        proof {
            let after = self.resolved@;
            assert(after =~= before.push(fresh));
            assert forall|i: int, j: int|
                0 <= i < after.len() && 0 <= j < after.len() && i != j implies (
            #[trigger] after[i]).query != (#[trigger] after[j]).query by {
                if i < before.len() && j < before.len() {
                    assert(before[i].query != before[j].query);
                } else if i < before.len() {
                    assert(before[i].query != fresh.query);
                } else {
                    assert(before[j].query != fresh.query);
                }
            }
        }
    }

    /// `true` when nothing is left to resolve.
    pub fn is_done(&self) -> (r: bool)
        ensures
            r == (self.queue@.len() == 0 && self.pending is None),
    {
        self.queue.len() == 0 && self.pending.is_none()
    }
}

/// The dependencies that are put into the queue: those that are not
/// resolved, in their order.
pub open spec fn spec_new_deps(resolved: Seq<ResolvedView>, names: Seq<Seq<char>>) -> Seq<Seq<char>>
    decreases names.len(),
{
    if names.len() == 0 {
        names
    } else if has_query(resolved, names.last()) {
        spec_new_deps(resolved, names.drop_last())
    } else {
        spec_new_deps(resolved, names.drop_last()).push(names.last())
    }
}

proof fn lemma_new_deps_cover(resolved: Seq<ResolvedView>, names: Seq<Seq<char>>, b: Seq<char>)
    requires
        names.contains(b),
    ensures
        has_query(resolved, b) || spec_new_deps(resolved, names).contains(b),
    decreases names.len(),
{
    if names.len() > 0 {
        let nd = spec_new_deps(resolved, names);
        if names.last() == b {
            if !has_query(resolved, b) {
                assert(nd[nd.len() - 1] == b);
            }
        } else {
            let j = choose|j: int| 0 <= j < names.len() && names[j] == b;
            assert(names.drop_last()[j] == b);
            lemma_new_deps_cover(resolved, names.drop_last(), b);
            if !has_query(resolved, b) {
                let rest = spec_new_deps(resolved, names.drop_last());
                let y = choose|y: int| 0 <= y < rest.len() && rest[y] == b;
                assert(nd[y] == b);
            }
        }
    }
}

/// In a build order of a closed set of resolved packages every entry is a
/// resolved selector: nothing is scheduled that was not resolved.
pub proof fn lemma_closed_order_is_resolved(s: Seq<ResolvedView>, order: Seq<Seq<char>>, p: int)
    requires
        closed(s),
        is_build_order(s, order),
        0 <= p < order.len(),
    ensures
        has_query(s, order[p]),
{
    assert(mentioned(s, order[p]));
    if !has_query(s, order[p]) {
        let a = choose|a: Seq<char>| #[trigger] declared(s, a, order[p]);
        assert(declared(s, a, order[p]));
    }
}

} // verus!
