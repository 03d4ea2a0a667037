//! Cycle detection on the edges between node ids: nodes without incoming
//! edges are peeled off round by round, and what cannot be peeled lies on a
//! cycle or behind one.

use vstd::prelude::*;

verus! {

/// An edge from the first node id to the second.
pub type Edge = (u32, u32);

/// The edges of a list of two-item arrays.
pub open spec fn edge_pairs(v: Seq<[u32; 2]>) -> Seq<Edge> {
    Seq::new(v.len(), |i: int| (v[i][0], v[i][1]))
}

/// The edges among the first `n` of `edges` that are not in `dropped`, in
/// their order.
pub open spec fn kept_upto(edges: Seq<Edge>, dropped: Set<Edge>, n: int) -> Seq<Edge>
    decreases n,
{
    if n <= 0 {
        Seq::empty()
    } else if dropped.contains(edges[n - 1]) {
        kept_upto(edges, dropped, n - 1)
    } else {
        kept_upto(edges, dropped, n - 1).push(edges[n - 1])
    }
}

/// The edges that are not in `dropped`, in their order.
pub open spec fn kept(edges: Seq<Edge>, dropped: Set<Edge>) -> Seq<Edge> {
    kept_upto(edges, dropped, edges.len() as int)
}

/// Whether some edge ends in `m`.
pub open spec fn has_incoming(edges: Seq<Edge>, m: u32) -> bool {
    exists|i: int| 0 <= i < edges.len() && (#[trigger] edges[i]).1 == m
}

/// Whether some edge leads from a node of `frontier` to `m`.
pub open spec fn fed_by(edges: Seq<Edge>, frontier: Set<u32>, m: u32) -> bool {
    exists|i: int|
        0 <= i < edges.len() && frontier.contains((#[trigger] edges[i]).0) && edges[i].1 == m
}

/// The edges that leave a node of `frontier`.
pub open spec fn leaving(frontier: Set<u32>) -> Set<Edge> {
    Set::new(|e: Edge| frontier.contains(e.0))
}

/// The edges that stay when those that leave `frontier` are removed.
pub open spec fn strip(edges: Seq<Edge>, frontier: Set<u32>) -> Seq<Edge> {
    kept(edges, leaving(frontier))
}

/// The next frontier: the nodes that an edge from `frontier` led to and that
/// no edge leads to once those edges are removed.
pub open spec fn released(edges: Seq<Edge>, frontier: Set<u32>) -> Set<u32> {
    Set::new(|m: u32| fed_by(edges, frontier, m) && !has_incoming(strip(edges, frontier), m))
}

/// The first frontier: the node ids from 1 to `count` that no edge leads to.
pub open spec fn roots(edges: Seq<Edge>, count: nat) -> Set<u32> {
    Set::new(|n: u32| 1 <= n && n <= count && !has_incoming(edges, n))
}

/// Whether a set of nodes is empty.
pub open spec fn vacant(s: Set<u32>) -> bool {
    forall|n: u32| !s.contains(n)
}

/// The edges that are left when the frontier has run empty: each round
/// removes the edges that leave the frontier and goes on with the nodes that
/// this has released.
pub open spec fn peel(edges: Seq<Edge>, frontier: Set<u32>) -> Seq<Edge>
    decreases edges.len(),
        (if vacant(frontier) {
            0nat
        } else {
            1nat
        }),
{
    if vacant(frontier) {
        edges
    } else {
        proof {
            lemma_round_shrinks(edges, frontier);
        }
        peel(strip(edges, frontier), released(edges, frontier))
    }
}

/// The edges whose reverse is an edge too, in their order.
pub open spec fn mutual(edges: Seq<Edge>) -> Seq<Edge> {
    kept(edges, Set::new(|e: Edge| !edges.contains((e.1, e.0))))
}

/// What is reported of the edges that could not be peeled: those that form
/// a cycle of two, or, where there is no such cycle, all of them.
pub open spec fn report(rest: Seq<Edge>) -> Seq<Edge> {
    if mutual(rest).len() > 0 {
        mutual(rest)
    } else {
        rest
    }
}

/// The edges reported as cyclic among `edges` on the nodes from 1 to `count`;
/// none if the graph has no cycle.
pub open spec fn loops(edges: Seq<Edge>, count: nat) -> Seq<Edge> {
    report(peel(edges, roots(edges, count)))
}

/// Whether `e` is one of the first `n` of `edges`.
pub open spec fn among(edges: Seq<Edge>, n: int, e: Edge) -> bool {
    exists|i: int| 0 <= i < n && #[trigger] edges[i] == e
}

/// Of the first `n` edges, one is kept exactly if it is not dropped; and
/// where as many are kept as there were, nothing has changed.
pub proof fn lemma_kept_upto(edges: Seq<Edge>, dropped: Set<Edge>, n: int)
    requires
        0 <= n <= edges.len(),
    ensures
        kept_upto(edges, dropped, n).len() <= n,
        forall|e: Edge|
            #[trigger] kept_upto(edges, dropped, n).contains(e) <==> among(edges, n, e)
                && !dropped.contains(e),
        kept_upto(edges, dropped, n).len() == n ==> kept_upto(edges, dropped, n) == edges.subrange(
            0,
            n,
        ),
    decreases n,
{
    let cur = kept_upto(edges, dropped, n);
    if n > 0 {
        lemma_kept_upto(edges, dropped, n - 1);
        let prev = kept_upto(edges, dropped, n - 1);
        let last = edges[n - 1];
        assert forall|e: Edge| #[trigger]
            cur.contains(e) <==> among(edges, n, e) && !dropped.contains(e) by {
            assert(prev.contains(e) <==> among(edges, n - 1, e) && !dropped.contains(e));
            if among(edges, n - 1, e) {
                let i = choose|i: int| 0 <= i < n - 1 && #[trigger] edges[i] == e;
                assert(0 <= i < n && edges[i] == e);
            }
            if among(edges, n, e) {
                let i = choose|i: int| 0 <= i < n && #[trigger] edges[i] == e;
                if i < n - 1 {
                    assert(among(edges, n - 1, e));
                } else {
                    assert(e == last);
                }
            }
            if e == last {
                assert(edges[n - 1] == e);
                assert(among(edges, n, e));
            }
            if !dropped.contains(last) {
                crate::model::lemma_push_contains(prev, last, e);
            }
        }
        if cur.len() == n {
            assert(prev == edges.subrange(0, n - 1));
            assert(cur =~= edges.subrange(0, n));
        }
    } else {
        assert(cur =~= edges.subrange(0, n));
        assert forall|e: Edge| #[trigger]
            cur.contains(e) <==> among(edges, n, e) && !dropped.contains(e) by {
            if cur.contains(e) {
                let i = cur.index_of(e);
                assert(cur[i] == e);
            }
        }
    }
}

/// An edge is kept exactly if it is an edge and not dropped.
pub proof fn lemma_kept(edges: Seq<Edge>, dropped: Set<Edge>)
    ensures
        kept(edges, dropped).len() <= edges.len(),
        forall|e: Edge|
            #[trigger] kept(edges, dropped).contains(e) <==> edges.contains(e) && !dropped.contains(
                e,
            ),
        kept(edges, dropped).len() == edges.len() ==> kept(edges, dropped) == edges,
{
    let n = edges.len() as int;
    lemma_kept_upto(edges, dropped, n);
    assert(edges.subrange(0, n) =~= edges);
    assert forall|e: Edge|
        #[trigger] kept(edges, dropped).contains(e) <==> edges.contains(e) && !dropped.contains(
            e,
        ) by {
        assert(kept_upto(edges, dropped, n).contains(e) <==> among(edges, n, e)
            && !dropped.contains(e));
        if edges.contains(e) {
            let i = edges.index_of(e);
            assert(0 <= i < n && edges[i] == e);
        }
        if among(edges, n, e) {
            let i = choose|i: int| 0 <= i < n && #[trigger] edges[i] == e;
            assert(edges.contains(e));
        }
    }
}

/// Two sets that agree on the edges drop the same ones.
pub proof fn lemma_kept_agree(edges: Seq<Edge>, a: Set<Edge>, b: Set<Edge>, n: int)
    requires
        0 <= n <= edges.len(),
        forall|i: int| 0 <= i < n ==> (a.contains(#[trigger] edges[i]) <==> b.contains(edges[i])),
    ensures
        kept_upto(edges, a, n) == kept_upto(edges, b, n),
    decreases n,
{
    if n > 0 {
        lemma_kept_agree(edges, a, b, n - 1);
    }
}

/// Dropping `a` and then `b` drops their union.
pub proof fn lemma_kept_twice(edges: Seq<Edge>, a: Set<Edge>, b: Set<Edge>, n: int)
    requires
        0 <= n <= edges.len(),
    ensures
        kept(kept_upto(edges, a, n), b) == kept_upto(edges, a.union(b), n),
    decreases n,
{
    if n > 0 {
        lemma_kept_twice(edges, a, b, n - 1);
        let prev = kept_upto(edges, a, n - 1);
        let last = edges[n - 1];
        if !a.contains(last) {
            lemma_kept_prefix(prev.push(last), b, prev.len() as int, prev);
        }
    }
}

/// What is kept of the first `n` edges depends on those edges alone.
pub proof fn lemma_kept_prefix(edges: Seq<Edge>, dropped: Set<Edge>, n: int, other: Seq<Edge>)
    requires
        0 <= n <= edges.len(),
        n <= other.len(),
        forall|i: int| 0 <= i < n ==> edges[i] == other[i],
    ensures
        kept_upto(edges, dropped, n) == kept_upto(other, dropped, n),
    decreases n,
{
    if n > 0 {
        lemma_kept_prefix(edges, dropped, n - 1, other);
    }
}

/// A round never adds an edge, and one that removes none releases no node.
pub proof fn lemma_round_shrinks(edges: Seq<Edge>, frontier: Set<u32>)
    ensures
        strip(edges, frontier).len() <= edges.len(),
        strip(edges, frontier).len() == edges.len() ==> vacant(released(edges, frontier)),
{
    lemma_kept(edges, leaving(frontier));
    if strip(edges, frontier).len() == edges.len() {
        assert forall|m: u32| !released(edges, frontier).contains(m) by {
            if fed_by(edges, frontier, m) {
                let i = choose|i: int|
                    0 <= i < edges.len() && frontier.contains((#[trigger] edges[i]).0)
                        && edges[i].1 == m;
                assert(edges.contains(edges[i]));
                assert(leaving(frontier).contains(edges[i]));
                assert(kept(edges, leaving(frontier)).contains(edges[i]));
            }
        }
    }
}

/// Whether a node has no incoming edge.
pub fn no_incoming_nodes(node: u32, edges: &Vec<[u32; 2]>) -> (r: bool)
    ensures
        r == !has_incoming(edge_pairs(edges@), node),
{
    let n: usize = edges.len();
    let mut i: usize = 0;
    while i < n
        invariant
            n == edges@.len(),
            i <= n,
            forall|j: int| 0 <= j < i ==> (#[trigger] edge_pairs(edges@)[j]).1 != node,
        decreases n - i,
    {
        if edges[i][1] == node {
            assert(edge_pairs(edges@)[i as int].1 == node);
            return false;
        }
        i += 1;
    }
    true
}

/// Whether a list of nodes holds `node`.
pub fn holds(nodes: &Vec<u32>, node: u32) -> (r: bool)
    ensures
        r == nodes@.contains(node),
{
    let n: usize = nodes.len();
    let mut i: usize = 0;
    while i < n
        invariant
            n == nodes@.len(),
            i <= n,
            forall|j: int| 0 <= j < i ==> nodes@[j] != node,
        decreases n - i,
    {
        if nodes[i] == node {
            return true;
        }
        i += 1;
    }
    false
}

/// The nodes that an edge leads to from `node`, each once.
pub fn nodes_connected_to(node: u32, edges: &Vec<[u32; 2]>) -> (r: Vec<u32>)
    ensures
        crate::model::distinct(r@),
        forall|m: u32| r@.contains(m) <==> edge_pairs(edges@).contains((node, m)),
{
    let mut out: Vec<u32> = Vec::new();
    let n: usize = edges.len();
    let mut i: usize = 0;
    while i < n
        invariant
            n == edges@.len(),
            i <= n,
            crate::model::distinct(out@),
            forall|m: u32|
                out@.contains(m) <==> exists|j: int|
                    0 <= j < i && #[trigger] edge_pairs(edges@)[j] == (node, m),
        decreases n - i,
    {
        let ghost before = out@;
        let target: u32 = edges[i][1];
        if edges[i][0] == node && !holds(&out, target) {
            out.push(target);
            proof {
                crate::model::lemma_push_distinct(before, target);
            }
        }
        assert forall|m: u32|
            out@.contains(m) <==> exists|j: int|
                0 <= j < i + 1 && #[trigger] edge_pairs(edges@)[j] == (node, m) by {
            crate::model::lemma_push_contains(before, target, m);
            if out@.contains(m) {
                if before.contains(m) {
                    let j = choose|j: int|
                        0 <= j < i && #[trigger] edge_pairs(edges@)[j] == (node, m);
                    assert(0 <= j < i + 1 && edge_pairs(edges@)[j] == (node, m));
                } else {
                    assert(edge_pairs(edges@)[i as int] == (node, m));
                }
            }
            if exists|j: int| 0 <= j < i + 1 && #[trigger] edge_pairs(edges@)[j] == (node, m) {
                let j = choose|j: int|
                    0 <= j < i + 1 && #[trigger] edge_pairs(edges@)[j] == (node, m);
                if j < i {
                    assert(before.contains(m));
                }
            }
        }
        i += 1;
    }
    proof {
        assert forall|m: u32| out@.contains(m) <==> edge_pairs(edges@).contains((node, m)) by {
            if edge_pairs(edges@).contains((node, m)) {
                let j = edge_pairs(edges@).index_of((node, m));
                assert(edge_pairs(edges@)[j] == (node, m));
            }
        }
    }
    out
}

/// Removes every edge from `a` to `b`.
pub fn remove_edge(edges: &mut Vec<[u32; 2]>, a: u32, b: u32)
    ensures
        edge_pairs(final(edges)@) == kept(edge_pairs(old(edges)@), set![(a, b)]),
{
    let mut out: Vec<[u32; 2]> = Vec::new();
    let n: usize = edges.len();
    let mut i: usize = 0;
    while i < n
        invariant
            n == edges@.len(),
            i <= n,
            edge_pairs(out@) == kept_upto(edge_pairs(edges@), set![(a, b)], i as int),
        decreases n - i,
    {
        let e = edges[i];
        assert(edge_pairs(edges@)[i as int] == (e[0], e[1]));
        if !(e[0] == a && e[1] == b) {
            let ghost before = edge_pairs(out@);
            out.push(e);
            assert(edge_pairs(out@) =~= before.push((e[0], e[1])));
        }
        i += 1;
    }
    *edges = out;
}

/// Whether the edge from `b` to `a`, the reverse of the one from `a` to `b`,
/// is among `edges`.
pub fn does_loop_exist(edges: &Vec<[u32; 2]>, a: u32, b: u32) -> (r: bool)
    ensures
        r == edge_pairs(edges@).contains((b, a)),
{
    let n: usize = edges.len();
    let mut i: usize = 0;
    while i < n
        invariant
            n == edges@.len(),
            i <= n,
            forall|j: int| 0 <= j < i ==> #[trigger] edge_pairs(edges@)[j] != (b, a),
        decreases n - i,
    {
        if edges[i][0] == b && edges[i][1] == a {
            assert(edge_pairs(edges@)[i as int] == (b, a));
            return true;
        }
        i += 1;
    }
    false
}

} // verus!
