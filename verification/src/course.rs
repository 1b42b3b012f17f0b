//! The course of a build: what is done, and in which order, once the
//! packages of a workspace are resolved.
//!
//! Nothing is made or run before the build order is known. A set of
//! packages without a build order ends the build before its first action.

use crate::error::{BuildError, ErrorView};
use crate::records::views;
use crate::schedule::{
    is_build_order, is_dependency_cycle, lemma_build_order_excludes_cycle, topological_sort,
    ResolvedSet, ResolvedView,
};
use crate::text::strings_view;
use vstd::prelude::*;

verus! {

/// One action of a build.
#[derive(Debug, Clone, PartialEq, Eq)]
pub enum BuildAction {
    /// Make the composition root.
    MakeRoot { path: String },
    /// Run the pipeline of the package that this selector resolved to, and
    /// materialize its exports.
    BuildPackage { query: String },
}

/// The mathematical content of an action of a build.
pub enum BuildActionView {
    MakeRoot { path: Seq<char> },
    BuildPackage { query: Seq<char> },
}

impl View for BuildAction {
    type V = BuildActionView;

    open spec fn view(&self) -> BuildActionView {
        match self {
            BuildAction::MakeRoot { path } => BuildActionView::MakeRoot { path: path@ },
            BuildAction::BuildPackage { query } => BuildActionView::BuildPackage { query: query@ },
        }
    }
}

/// The actions of a build along `order`: the composition root is made,
/// then the packages are built one after another.
pub open spec fn spec_build_actions(root: Seq<char>, order: Seq<Seq<char>>) -> Seq<
    BuildActionView,
> {
    Seq::new(
        order.len() + 1,
        |i: int|
            if i == 0 {
                BuildActionView::MakeRoot { path: root }
            } else {
                BuildActionView::BuildPackage { query: order[i - 1] }
            },
    )
}

/// The packages that a list of actions builds, in order.
pub open spec fn spec_built(actions: Seq<BuildActionView>) -> Seq<Seq<char>>
    decreases actions.len(),
{
    if actions.len() == 0 {
        Seq::empty()
    } else {
        match actions.last() {
            BuildActionView::BuildPackage { query } => spec_built(actions.drop_last()).push(query),
            _ => spec_built(actions.drop_last()),
        }
    }
}

/// The packages built along an order are the order.
pub proof fn lemma_built_along_order(root: Seq<char>, order: Seq<Seq<char>>)
    ensures
        spec_built(spec_build_actions(root, order)) == order,
    decreases order.len(),
{
    let actions = spec_build_actions(root, order);
    if order.len() == 0 {
        assert(actions.drop_last() =~= Seq::<BuildActionView>::empty());
        assert(spec_built(actions.drop_last()) =~= Seq::<Seq<char>>::empty());
        assert(spec_built(actions) =~= order);
    } else {
        lemma_built_along_order(root, order.drop_last());
        assert(actions.drop_last() =~= spec_build_actions(root, order.drop_last()));
        assert(actions.last() == (BuildActionView::BuildPackage { query: order.last() }));
        assert(order.drop_last().push(order.last()) =~= order);
    }
}

/// Plans a build. With a build order the composition root `root` is made
/// first and the packages are then built in that order, each after the
/// packages it depends on. Where the declared dependencies hold a cycle
/// the build has no action at all: the error walks the cycle.
pub fn build_plan(resolved: &ResolvedSet, root: &str) -> (r: Result<Vec<BuildAction>, BuildError>)
    requires
        resolved.wf(),
    ensures
        match r {
            Ok(plan) => is_build_order(resolved@, spec_built(views(plan@))) && views(plan@)
                == spec_build_actions(root@, spec_built(views(plan@))),
            Err(e) => match e@ {
                ErrorView::CircularDependency { nodes } => is_dependency_cycle(resolved@, nodes),
                _ => false,
            },
        },
{
    match topological_sort(resolved) {
        Err(e) => Err(e),
        Ok(order) => {
            let ghost wanted = spec_build_actions(root@, strings_view(order@));
            let mut plan: Vec<BuildAction> = Vec::new();
            plan.push(BuildAction::MakeRoot { path: String::from_str(root) });
            let mut i: usize = 0;
            while i < order.len()
                invariant
                    i <= order.len(),
                    plan.len() == i + 1,
                    wanted == spec_build_actions(root@, strings_view(order@)),
                    forall|j: int| 0 <= j < plan.len() ==> (#[trigger] plan@[j])@ == wanted[j],
                decreases order.len() - i,
            {
                plan.push(BuildAction::BuildPackage { query: order[i].clone() });
                i += 1;
            }
            proof {
                assert(views(plan@) =~= wanted);
                lemma_built_along_order(root@, strings_view(order@));
            }
            Ok(plan)
        },
    }
}

/// A build of packages whose declared dependencies hold a cycle has no
/// plan: whatever `plan` lists, it is not the plan of this build. So no
/// directory is made, no step is run and no outcome is recorded.
pub proof fn lemma_cycle_has_no_plan(
    s: Seq<ResolvedView>,
    cycle: Seq<Seq<char>>,
    root: Seq<char>,
    plan: Seq<BuildActionView>,
)
    requires
        is_dependency_cycle(s, cycle),
    ensures
        !(is_build_order(s, spec_built(plan)) && plan == spec_build_actions(root, spec_built(plan))),
{
    if is_build_order(s, spec_built(plan)) {
        lemma_build_order_excludes_cycle(s, spec_built(plan), cycle);
    }
}

/// In a plan the composition root is made before any package is built,
/// and a package is built after every package it declares to depend on.
pub proof fn lemma_plan_order(
    s: Seq<ResolvedView>,
    root: Seq<char>,
    order: Seq<Seq<char>>,
    p: int,
    q: int,
)
    requires
        is_build_order(s, order),
        0 <= p < order.len(),
        0 <= q < order.len(),
        crate::schedule::declared(s, order[p], order[q]),
    ensures
        spec_build_actions(root, order)[0] == (BuildActionView::MakeRoot { path: root }),
        spec_build_actions(root, order)[p + 1] == (BuildActionView::BuildPackage {
            query: order[p],
        }),
        spec_build_actions(root, order)[q + 1] == (BuildActionView::BuildPackage {
            query: order[q],
        }),
        q + 1 < p + 1,
{
}

} // verus!
