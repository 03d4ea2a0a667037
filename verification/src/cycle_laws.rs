//! What holds of cycle detection on every graph.

use crate::cycles::{
    among, fed_by, has_incoming, kept, kept_upto, leaving, lemma_kept, lemma_kept_agree,
    lemma_kept_twice, lemma_round_shrinks, loops, mutual, peel, released, report, roots, strip,
    vacant, Edge,
};
use crate::model::distinct;
use vstd::prelude::*;

verus! {

/// Whether `rank` puts the source of every edge before its target. A graph
/// has such a ranking exactly if it has no cycle.
pub open spec fn ranked(edges: Seq<Edge>, rank: spec_fn(u32) -> int) -> bool {
    forall|i: int| 0 <= i < edges.len() ==> rank((#[trigger] edges[i]).0) < rank(edges[i].1)
}

/// Whether every edge starts at a node with an id from 1 to `count`.
pub open spec fn rooted(edges: Seq<Edge>, count: nat) -> bool {
    forall|i: int| 0 <= i < edges.len() ==> 1 <= (#[trigger] edges[i]).0 <= count
}

/// Whether the frontier holds every node that an edge starts at and no edge
/// leads to.
pub open spec fn covers(edges: Seq<Edge>, frontier: Set<u32>) -> bool {
    forall|i: int|
        0 <= i < edges.len() && !has_incoming(edges, (#[trigger] edges[i]).0)
            ==> frontier.contains(edges[i].0)
}

/// Among the first `n` edges, one starts at a node of least rank.
pub proof fn lemma_least_source(edges: Seq<Edge>, rank: spec_fn(u32) -> int, n: int) -> (k: int)
    requires
        0 < n <= edges.len(),
    ensures
        0 <= k < n,
        forall|j: int| 0 <= j < n ==> rank(edges[k].0) <= rank((#[trigger] edges[j]).0),
    decreases n,
{
    if n == 1 {
        0
    } else {
        let k = lemma_least_source(edges, rank, n - 1);
        if rank(edges[n - 1].0) < rank(edges[k].0) {
            n - 1
        } else {
            k
        }
    }
}

/// A graph without a cycle is peeled down to nothing, if the frontier
/// holds every node at which peeling can start.
pub proof fn lemma_peel_empties(edges: Seq<Edge>, frontier: Set<u32>, rank: spec_fn(u32) -> int)
    requires
        ranked(edges, rank),
        covers(edges, frontier),
    ensures
        peel(edges, frontier).len() == 0,
    decreases edges.len(),
        (if vacant(frontier) {
            0nat
        } else {
            1nat
        }),
{
    if edges.len() > 0 {
        let k = lemma_least_source(edges, rank, edges.len() as int);
        let s = edges[k].0;
        if has_incoming(edges, s) {
            let i = choose|i: int| 0 <= i < edges.len() && (#[trigger] edges[i]).1 == s;
            assert(rank(edges[i].0) < rank(edges[i].1));
            assert(rank(edges[k].0) <= rank(edges[i].0));
        }
        assert(frontier.contains(s));
        let next_edges = strip(edges, frontier);
        let next = released(edges, frontier);
        lemma_round_shrinks(edges, frontier);
        lemma_kept(edges, leaving(frontier));
        assert(edges.contains(edges[k]));
        assert(!next_edges.contains(edges[k]));
        if next_edges.len() == edges.len() {
            assert(next_edges == edges);
        }
        assert(next_edges.len() < edges.len());
        assert(ranked(next_edges, rank)) by {
            assert forall|i: int| 0 <= i < next_edges.len() implies rank(
                (#[trigger] next_edges[i]).0,
            ) < rank(next_edges[i].1) by {
                assert(next_edges.contains(next_edges[i]));
                let j = edges.index_of(next_edges[i]);
                assert(edges[j] == next_edges[i]);
            }
        }
        assert(covers(next_edges, next)) by {
            assert forall|i: int|
                0 <= i < next_edges.len() && !has_incoming(
                    next_edges,
                    (#[trigger] next_edges[i]).0,
                ) implies next.contains(next_edges[i].0) by {
                let e = next_edges[i];
                let v = e.0;
                assert(next_edges.contains(e));
                assert(edges.contains(e) && !frontier.contains(v));
                let j = edges.index_of(e);
                assert(edges[j].0 == v);
                assert(has_incoming(edges, v));
                let t = choose|t: int| 0 <= t < edges.len() && (#[trigger] edges[t]).1 == v;
                assert(edges.contains(edges[t]));
                if !frontier.contains(edges[t].0) {
                    assert(next_edges.contains(edges[t]));
                    let u = next_edges.index_of(edges[t]);
                    assert(next_edges[u].1 == v);
                }
                assert(fed_by(edges, frontier, v));
            }
        }
        lemma_peel_empties(next_edges, next, rank);
    } else {
        if !vacant(frontier) {
            lemma_kept(edges, leaving(frontier));
            lemma_peel_empties(strip(edges, frontier), released(edges, frontier), rank);
        }
    }
}

/// A graph without a cycle validates: where a ranking puts the source of
/// every edge before its target, and every edge starts at a node, no edge
/// is reported.
pub proof fn law_dag_has_no_loops(edges: Seq<Edge>, count: nat, rank: spec_fn(u32) -> int)
    requires
        ranked(edges, rank),
        rooted(edges, count),
    ensures
        loops(edges, count).len() == 0,
{
    assert(covers(edges, roots(edges, count)));
    lemma_peel_empties(edges, roots(edges, count), rank);
    let rest = peel(edges, roots(edges, count));
    lemma_kept(rest, Set::new(|e: Edge| !rest.contains((e.1, e.0))));
}

/// What is left after peeling is what is left of the edges when some set of
/// them is dropped.
pub proof fn lemma_peel_kept(edges: Seq<Edge>, frontier: Set<u32>) -> (dropped: Set<Edge>)
    ensures
        peel(edges, frontier) == kept(edges, dropped),
    decreases edges.len(),
        (if vacant(frontier) {
            0nat
        } else {
            1nat
        }),
{
    if vacant(frontier) {
        let none = Set::<Edge>::empty();
        lemma_kept(edges, none);
        crate::validate::lemma_kept_nothing(edges, edges.len() as int);
        assert(edges.subrange(0, edges.len() as int) =~= edges);
        none
    } else {
        lemma_round_shrinks(edges, frontier);
        let later = lemma_peel_kept(strip(edges, frontier), released(edges, frontier));
        lemma_kept_twice(edges, leaving(frontier), later, edges.len() as int);
        leaving(frontier).union(later)
    }
}

/// Two edges that are each other's reverse are never peeled off.
pub proof fn lemma_mutual_stays(edges: Seq<Edge>, frontier: Set<u32>, a: u32, b: u32)
    requires
        edges.contains((a, b)),
        edges.contains((b, a)),
        !frontier.contains(a),
        !frontier.contains(b),
    ensures
        peel(edges, frontier).contains((a, b)),
        peel(edges, frontier).contains((b, a)),
    decreases edges.len(),
        (if vacant(frontier) {
            0nat
        } else {
            1nat
        }),
{
    if !vacant(frontier) {
        lemma_round_shrinks(edges, frontier);
        lemma_kept(edges, leaving(frontier));
        let next_edges = strip(edges, frontier);
        let next = released(edges, frontier);
        assert(next_edges.contains((a, b)));
        assert(next_edges.contains((b, a)));
        let i = next_edges.index_of((a, b));
        assert(next_edges[i].1 == b);
        let j = next_edges.index_of((b, a));
        assert(next_edges[j].1 == a);
        lemma_mutual_stays(next_edges, next, a, b);
    }
}

/// Of distinct edges, those kept that are one of two given edges, of which
/// the first is among the edges and the second follows them all, are just
/// these two.
pub proof fn lemma_two_kept(edges: Seq<Edge>, first: Edge, second: Edge, n: int)
    requires
        distinct(edges),
        0 <= n <= edges.len(),
        first != second,
        !edges.contains(second),
    ensures
        kept_upto(edges, Set::new(|e: Edge| e != first && e != second), n) == if among(
            edges,
            n,
            first,
        ) {
            seq![first]
        } else {
            Seq::<Edge>::empty()
        },
    decreases n,
{
    let others = Set::new(|e: Edge| e != first && e != second);
    if n > 0 {
        lemma_two_kept(edges, first, second, n - 1);
        let last = edges[n - 1];
        assert(edges.contains(last));
        if among(edges, n - 1, first) {
            let i = choose|i: int| 0 <= i < n - 1 && #[trigger] edges[i] == first;
            assert(edges[i] != edges[n - 1]);
            assert(0 <= i < n && edges[i] == first);
            assert(others.contains(last));
        } else if last == first {
            assert(edges[n - 1] == first);
            assert(among(edges, n, first));
            assert(kept_upto(edges, others, n) =~= seq![first]);
        } else {
            assert(others.contains(last));
            if among(edges, n, first) {
                let i = choose|i: int| 0 <= i < n && #[trigger] edges[i] == first;
                assert(0 <= i < n - 1 && edges[i] == first);
            }
        }
    } else {
        if among(edges, n, first) {
            let i = choose|i: int| 0 <= i < n && #[trigger] edges[i] == first;
        }
    }
}

/// Adding the reverse of an edge to a graph without a cycle makes cycle
/// detection report exactly that pair: the edge and, behind it, its reverse.
pub proof fn law_reverse_edge_is_reported(
    edges: Seq<Edge>,
    count: nat,
    rank: spec_fn(u32) -> int,
    a: u32,
    b: u32,
)
    requires
        ranked(edges, rank),
        distinct(edges),
        edges.contains((a, b)),
    ensures
        loops(edges.push((b, a)), count) == seq![(a, b), (b, a)],
{
    let first = (a, b);
    let second = (b, a);
    let all = edges.push(second);
    let p = edges.index_of(first);
    assert(rank(edges[p].0) < rank(edges[p].1));
    assert(!edges.contains(second)) by {
        if edges.contains(second) {
            let q = edges.index_of(second);
            assert(rank(edges[q].0) < rank(edges[q].1));
        }
    }
    assert(all[p] == first);
    assert(all[edges.len() as int] == second);
    assert(all.contains(first));
    assert(all.contains(second));
    let start = roots(all, count);
    assert(!start.contains(a)) by {
        assert(all[edges.len() as int].1 == a);
    }
    assert(!start.contains(b)) by {
        assert(all[p].1 == b);
    }
    lemma_mutual_stays(all, start, a, b);
    let rest = peel(all, start);
    let dropped = lemma_peel_kept(all, start);
    let lone = Set::new(|e: Edge| !rest.contains((e.1, e.0)));
    let others = Set::new(|e: Edge| e != first && e != second);
    lemma_kept(all, dropped);
    lemma_kept_twice(all, dropped, lone, all.len() as int);
    assert forall|i: int| 0 <= i < all.len() implies (dropped.union(lone).contains(
        #[trigger] all[i],
    ) <==> others.contains(all[i])) by {
        let e = all[i];
        assert(all.contains(e));
        if e == first || e == second {
            assert(rest.contains(e));
            assert(rest.contains((e.1, e.0)));
        } else {
            if rest.contains(e) && rest.contains((e.1, e.0)) {
                let back = (e.1, e.0);
                assert(all.contains(back));
                let j = all.index_of(back);
                assert(all[j] == back);
                assert(i < edges.len());
                assert(j < edges.len());
                assert(rank(edges[i].0) < rank(edges[i].1));
                assert(rank(edges[j].0) < rank(edges[j].1));
            }
        }
    }
    lemma_kept_agree(all, dropped.union(lone), others, all.len() as int);
    assert(mutual(rest) == kept(all, others));
    lemma_two_kept(edges, first, second, edges.len() as int);
    crate::cycles::lemma_kept_prefix(all, others, edges.len() as int, edges);
    assert(among(edges, edges.len() as int, first)) by {
        assert(edges[p] == first);
    }
    assert(kept(all, others) =~= seq![first, second]);
}

} // verus!
