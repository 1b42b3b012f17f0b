//! Depth-first ordering of a dependency graph given by adjacency lists.
//!
//! Vertices are numbered from zero; `adj[u]` lists what `u` depends on. The
//! ordering puts every vertex after all it depends on, or reports a cycle.

use vstd::prelude::*;

verus! {

/// Every listed dependency is a vertex.
pub open spec fn adj_wf(adj: Seq<Vec<usize>>) -> bool {
    forall|i: int, k: int|
        0 <= i < adj.len() && 0 <= k < adj[i]@.len() ==> (#[trigger] adj[i]@[k]) < adj.len()
}

/// `u` depends on `v`.
pub open spec fn edge(adj: Seq<Vec<usize>>, u: usize, v: usize) -> bool {
    u < adj.len() && adj[u as int]@.contains(v)
}

/// `c` is a closed walk along dependencies: each vertex depends on the
/// next, and the last on the first.
pub open spec fn is_cycle(adj: Seq<Vec<usize>>, c: Seq<usize>) -> bool {
    &&& c.len() > 0
    &&& forall|k: int| 0 <= k < c.len() - 1 ==> edge(adj, #[trigger] c[k], c[k + 1])
    &&& edge(adj, c.last(), c[0])
}

/// `v` stands in `order` before position `p`.
pub open spec fn earlier(order: Seq<usize>, p: int, v: usize) -> bool {
    exists|q: int| 0 <= q < p && order[q] == v
}

/// Whatever a vertex of `order` depends on stands before it.
pub open spec fn deps_earlier(adj: Seq<Vec<usize>>, order: Seq<usize>) -> bool {
    forall|p: int, k: int|
        0 <= p < order.len() && 0 <= k < adj[order[p] as int]@.len() ==> earlier(
            order,
            p,
            #[trigger] adj[order[p] as int]@[k],
        )
}

/// `order` lists every vertex once, each after all it depends on.
pub open spec fn is_topological(adj: Seq<Vec<usize>>, order: Seq<usize>) -> bool {
    &&& order.no_duplicates()
    &&& forall|p: int| 0 <= p < order.len() ==> (#[trigger] order[p]) < adj.len()
    &&& forall|v: usize| v < adj.len() ==> #[trigger] order.contains(v)
    &&& deps_earlier(adj, order)
}

/// The number of vertices not yet reached.
pub open spec fn count_white(state: Seq<u8>) -> nat
    decreases state.len(),
{
    if state.len() == 0 {
        0
    } else {
        count_white(state.drop_last()) + if state.last() == 0 {
            1nat
        } else {
            0nat
        }
    }
}

proof fn lemma_count_update(state: Seq<u8>, i: int, v: u8)
    requires
        0 <= i < state.len(),
    ensures
        count_white(state.update(i, v)) + (if state[i] == 0 {
            1int
        } else {
            0int
        }) == count_white(state) + (if v == 0 {
            1int
        } else {
            0int
        }),
    decreases state.len(),
{
    let s2 = state.update(i, v);
    if i == state.len() - 1 {
        assert(s2.drop_last() =~= state.drop_last());
    } else {
        assert(s2.drop_last() =~= state.drop_last().update(i, v));
        lemma_count_update(state.drop_last(), i, v);
    }
}

/// What holds between calls of the search: `state` tells for each vertex
/// whether it is untouched (0), on the current path (1) or emitted (2).
pub open spec fn dfs_inv(
    adj: Seq<Vec<usize>>,
    state: Seq<u8>,
    stack: Seq<usize>,
    order: Seq<usize>,
) -> bool {
    &&& state.len() == adj.len()
    &&& forall|i: int| 0 <= i < state.len() ==> (#[trigger] state[i]) <= 2
    &&& forall|p: int| 0 <= p < order.len() ==> (#[trigger] order[p]) < adj.len()
    &&& forall|p: int| 0 <= p < stack.len() ==> (#[trigger] stack[p]) < adj.len()
    &&& forall|v: usize|
        #![trigger order.contains(v)]
        #![trigger state[v as int]]
        v < adj.len() ==> (state[v as int] == 2 <==> order.contains(v))
    &&& forall|v: usize|
        #![trigger stack.contains(v)]
        #![trigger state[v as int]]
        v < adj.len() ==> (state[v as int] == 1 <==> stack.contains(v))
    &&& order.no_duplicates()
    &&& forall|k: int| 0 <= k < stack.len() - 1 ==> edge(adj, #[trigger] stack[k], stack[k + 1])
    &&& deps_earlier(adj, order)
}

/// The part of the current path from the first occurrence of `v` on.
fn path_from(stack: &Vec<usize>, v: usize) -> (r: Vec<usize>)
    requires
        stack@.contains(v),
    ensures
        r@.len() > 0,
        r@[0] == v,
        exists|p: int| 0 <= p < stack@.len() && r@ == stack@.subrange(p, stack@.len() as int),
{
    let mut p: usize = 0;
    while p < stack.len() && stack[p] != v
        invariant
            p <= stack.len(),
            forall|j: int| 0 <= j < p ==> stack@[j] != v,
        decreases stack.len() - p,
    {
        p += 1;
    }
    assert(p < stack.len());
    let mut r: Vec<usize> = Vec::new();
    let mut i: usize = p;
    while i < stack.len()
        invariant
            p <= i <= stack.len(),
            r@ == stack@.subrange(p as int, i as int),
        decreases stack.len() - i,
    {
        r.push(stack[i]);
        i += 1;
        assert(r@ =~= stack@.subrange(p as int, i as int));
    }
    r
}

/// Emits `u` after everything it depends on.
fn visit(
    adj: &Vec<Vec<usize>>,
    u: usize,
    state: &mut Vec<u8>,
    stack: &mut Vec<usize>,
    order: &mut Vec<usize>,
) -> (r: Result<(), Vec<usize>>)
    requires
        adj_wf(adj@),
        dfs_inv(adj@, old(state)@, old(stack)@, old(order)@),
        u < adj.len(),
        old(state)@[u as int] == 0,
        old(stack)@.len() > 0 ==> edge(adj@, old(stack)@.last(), u),
    ensures
        match r {
            Ok(()) => {
                &&& dfs_inv(adj@, final(state)@, final(stack)@, final(order)@)
                &&& final(stack)@ == old(stack)@
                &&& final(state)@[u as int] == 2
                &&& forall|i: int|
                    0 <= i < adj.len() && old(state)@[i] != 0 ==> final(state)@[i] == old(
                        state,
                    )@[i]
                &&& count_white(final(state)@) < count_white(old(state)@)
            },
            Err(c) => is_cycle(adj@, c@),
        },
    decreases count_white(old(state)@),
{
    let ghost state0 = state@;
    let ghost stack0 = stack@;
    let ghost order0 = order@;
    proof {
        lemma_count_update(state0, u as int, 1);
    }
    state.set(u, 1);
    stack.push(u);
    proof {
        assert forall|v: usize| v < adj.len() implies (state@[v as int] == 1
            <==> stack@.contains(v)) by {
            if v == u {
                assert(stack@[stack@.len() - 1] == u);
            } else {
                if state0[v as int] == 1 {
                    assert(stack0.contains(v));
                    let p = choose|p: int| 0 <= p < stack0.len() && stack0[p] == v;
                    assert(stack@[p] == v);
                }
                if stack@.contains(v) {
                    let p = choose|p: int| 0 <= p < stack@.len() && stack@[p] == v;
                    assert(p < stack0.len());
                    assert(stack0[p] == v);
                }
            }
        }
        assert forall|v: usize| v < adj.len() implies (state@[v as int] == 2
            <==> order@.contains(v)) by {
            if v == u {
                assert(state0[u as int] == 0);
                assert(!order0.contains(u));
            } else {
                assert(state@[v as int] == state0[v as int]);
            }
        }
        assert forall|k: int| 0 <= k < stack@.len() - 1 implies edge(
            adj@,
            #[trigger] stack@[k],
            stack@[k + 1],
        ) by {
            if k < stack0.len() - 1 {
                assert(edge(adj@, stack0[k], stack0[k + 1]));
            } else {
                assert(stack@[k] == stack0.last());
            }
        }
        assert(dfs_inv(adj@, state@, stack@, order@));
    }
    let mut k: usize = 0;
    let n_deps = adj[u].len();
    while k < n_deps
        invariant
            adj_wf(adj@),
            u < adj.len(),
            n_deps == adj@[u as int]@.len(),
            k <= n_deps,
            dfs_inv(adj@, state@, stack@, order@),
            stack@ == stack0.push(u),
            state0 == old(state)@,
            state0.len() == adj.len(),
            state0[u as int] == 0,
            forall|i: int|
                0 <= i < adj.len() && state0[i] != 0 ==> state@[i] == state0[i],
            state@[u as int] == 1,
            count_white(state@) < count_white(state0),
            forall|j: int| 0 <= j < k ==> state@[adj@[u as int]@[j] as int] == 2,
        decreases n_deps - k,
    {
        let v = adj[u][k];
        assert(v < adj.len());
        assert(edge(adj@, u, v));
        if state[v] == 1 {
            assert(stack@.contains(v));
            let c = path_from(stack, v);
            proof {
                let p = choose|p: int|
                    0 <= p < stack@.len() && c@ == stack@.subrange(p, stack@.len() as int);
                assert(c@.last() == u);
                assert forall|j: int| 0 <= j < c@.len() - 1 implies edge(
                    adj@,
                    #[trigger] c@[j],
                    c@[j + 1],
                ) by {
                    assert(edge(adj@, stack@[p + j], stack@[p + j + 1]));
                }
            }
            return Err(c);
        }
        if state[v] == 0 {
            let ghost state1 = state@;
            assert(stack@.last() == u);
            match visit(adj, v, state, stack, order) {
                Ok(()) => {},
                Err(c) => {
                    return Err(c);
                },
            }
            proof {
                assert forall|j: int| 0 <= j < k implies state@[adj@[u as int]@[j] as int]
                    == 2 by {
                    assert(state1[adj@[u as int]@[j] as int] == 2);
                }
                assert forall|i: int| 0 <= i < adj.len() && state0[i] != 0 implies state@[i]
                    == state0[i] by {
                    assert(state1[i] == state0[i]);
                }
            }
        }
        assert(state@[v as int] == 2);
        k += 1;
    }
    let ghost state2 = state@;
    let ghost stack2 = stack@;
    let ghost order2 = order@;
    stack.pop();
    proof {
        lemma_count_update(state2, u as int, 2);
        assert(stack@ =~= stack0);
    }
    state.set(u, 2);
    order.push(u);
    proof {
        assert(!order2.contains(u));
        assert forall|v: usize| v < adj.len() implies (state@[v as int] == 2
            <==> order@.contains(v)) by {
            if v == u {
                assert(order@[order@.len() - 1] == u);
            } else {
                if state2[v as int] == 2 {
                    assert(order2.contains(v));
                    let p = choose|p: int| 0 <= p < order2.len() && order2[p] == v;
                    assert(order@[p] == v);
                }
                if order@.contains(v) {
                    let p = choose|p: int| 0 <= p < order@.len() && order@[p] == v;
                    assert(order2[p] == v);
                }
            }
        }
        assert forall|v: usize| v < adj.len() implies (state@[v as int] == 1
            <==> stack@.contains(v)) by {
            if v == u {
                if stack0.contains(u) {
                    assert(state0[u as int] == 1);
                }
            } else {
                assert(state@[v as int] == state2[v as int]);
                if state2[v as int] == 1 {
                    assert(stack2.contains(v));
                    let p = choose|p: int| 0 <= p < stack2.len() && stack2[p] == v;
                    assert(p < stack0.len());
                    assert(stack0[p] == v);
                }
                if stack0.contains(v) {
                    let p = choose|p: int| 0 <= p < stack0.len() && stack0[p] == v;
                    assert(stack2[p] == v);
                }
            }
        }
        assert forall|k: int| 0 <= k < stack@.len() - 1 implies edge(
            adj@,
            #[trigger] stack@[k],
            stack@[k + 1],
        ) by {
            assert(edge(adj@, stack2[k], stack2[k + 1]));
        }
        assert forall|p: int, k: int|
            0 <= p < order@.len() && 0 <= k < adj@[order@[p] as int]@.len() implies earlier(
            order@,
            p,
            #[trigger] adj@[order@[p] as int]@[k],
        ) by {
            if p < order2.len() {
                assert(order@[p] == order2[p]);
                let w = adj@[order2[p] as int]@[k];
                assert(earlier(order2, p, w));
                let q = choose|q: int| 0 <= q < p && order2[q] == w;
                assert(order@[q] == w);
            } else {
                let w = adj@[u as int]@[k];
                assert(state2[w as int] == 2);
                assert(order2.contains(w));
                let q = choose|q: int| 0 <= q < order2.len() && order2[q] == w;
                assert(order@[q] == w);
            }
        }
        assert(order@.no_duplicates()) by {
            assert forall|a: int, b: int|
                0 <= a < order@.len() && 0 <= b < order@.len() && a != b implies order@[a]
                != order@[b] by {
                if a < order2.len() && b < order2.len() {
                    assert(order2[a] != order2[b]);
                } else if a < order2.len() {
                    assert(order2[a] != u);
                } else {
                    assert(order2[b] != u);
                }
            }
        }
    }
    Ok(())
}

/// Orders the vertices so that each comes after all it depends on, or
/// returns a cycle.
pub fn sort_vertices(adj: &Vec<Vec<usize>>) -> (r: Result<Vec<usize>, Vec<usize>>)
    requires
        adj_wf(adj@),
    ensures
        match r {
            Ok(order) => is_topological(adj@, order@),
            Err(c) => is_cycle(adj@, c@),
        },
{
    let n = adj.len();
    let mut state: Vec<u8> = Vec::new();
    let mut i: usize = 0;
    while i < n
        invariant
            i <= n,
            state.len() == i,
            forall|j: int| 0 <= j < i ==> state@[j] == 0,
        decreases n - i,
    {
        state.push(0);
        i += 1;
    }
    let mut stack: Vec<usize> = Vec::new();
    let mut order: Vec<usize> = Vec::new();
    let mut u: usize = 0;
    while u < n
        invariant
            u <= n,
            n == adj.len(),
            adj_wf(adj@),
            dfs_inv(adj@, state@, stack@, order@),
            stack@.len() == 0,
            forall|j: int| 0 <= j < u ==> state@[j] == 2,
        decreases n - u,
    {
        if state[u] == 0 {
            let ghost before = state@;
            match visit(adj, u, &mut state, &mut stack, &mut order) {
                Ok(()) => {},
                Err(c) => {
                    return Err(c);
                },
            }
            proof {
                assert forall|j: int| 0 <= j < u implies state@[j] == 2 by {
                    assert(before[j] == 2);
                }
            }
        } else {
            assert(state@[u as int] != 1) by {
                if state@[u as int] == 1 {
                    assert(stack@.contains(u));
                }
            }
        }
        u += 1;
    }
    Ok(order)
}

/// Along a closed walk the positions in a topological order would have to
/// fall at every step and yet return to where they began: a graph that has
/// a topological order has no cycle.
pub proof fn lemma_topological_excludes_cycle(
    adj: Seq<Vec<usize>>,
    order: Seq<usize>,
    c: Seq<usize>,
)
    requires
        is_topological(adj, order),
    ensures
        !is_cycle(adj, c),
{
    if is_cycle(adj, c) {
        lemma_walk_descends(adj, order, c, c.len() - 1);
        lemma_edge_descends(adj, order, c.last(), c[0]);
    }
}

/// The position of `v` in `order`.
pub open spec fn position(order: Seq<usize>, v: usize) -> int {
    choose|p: int| 0 <= p < order.len() && order[p] == v
}

/// In a topological order a vertex stands after what it depends on.
pub proof fn lemma_edge_descends(adj: Seq<Vec<usize>>, order: Seq<usize>, u: usize, v: usize)
    requires
        is_topological(adj, order),
        edge(adj, u, v),
    ensures
        0 <= position(order, v) < position(order, u) < order.len(),
        order[position(order, v)] == v,
        order[position(order, u)] == u,
{
    assert(order.contains(u));
    let p = position(order, u);
    let k = choose|k: int| 0 <= k < adj[u as int]@.len() && adj[u as int]@[k] == v;
    assert(earlier(order, p, adj[order[p] as int]@[k]));
    let q = choose|q: int| 0 <= q < p && order[q] == v;
    assert(order.contains(v));
    let pv = position(order, v);
    assert(pv == q);
}

proof fn lemma_walk_descends(adj: Seq<Vec<usize>>, order: Seq<usize>, c: Seq<usize>, k: int)
    requires
        is_topological(adj, order),
        is_cycle(adj, c),
        0 <= k < c.len(),
    ensures
        position(order, c[k]) <= position(order, c[0]),
    decreases k,
{
    if k > 0 {
        lemma_walk_descends(adj, order, c, k - 1);
        assert(edge(adj, c[k - 1], c[k - 1 + 1]));
        lemma_edge_descends(adj, order, c[k - 1], c[k]);
    }
}

} // verus!
