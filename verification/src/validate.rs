//! The checks on the finished graph: names that no node has, the edges
//! between node ids, and cycles.

use crate::cycles::{
    does_loop_exist, edge_pairs, fed_by, has_incoming, holds, kept, kept_upto, leaving,
    lemma_kept, lemma_kept_agree, lemma_kept_twice, lemma_round_shrinks, loops, mutual,
    no_incoming_nodes, nodes_connected_to, peel, released, remove_edge, roots, strip,
    Edge,
};
use crate::dagzet::{contains_text, DagZet};
use crate::model::{distinct, lemma_push_contains, lemma_push_distinct, Graph, ReturnCode};
use crate::text::texts;
use vstd::prelude::*;

verus! {

impl Graph {
    /// The name at an end of a connection: the ends are counted along the
    /// connections, left before right.
    pub open spec fn endpoint(self, k: int) -> Seq<char> {
        if k % 2 == 0 {
            self.connections[k / 2].0
        } else {
            self.connections[k / 2].1
        }
    }

    /// The unknown names among the first `n` ends, each once, in the order
    /// of their first mention.
    pub open spec fn unknown_upto(self, n: int) -> Seq<Seq<char>>
        decreases n,
    {
        if n <= 0 {
            Seq::empty()
        } else {
            let prev = self.unknown_upto(n - 1);
            let name = self.endpoint(n - 1);
            if self.known(name) || prev.contains(name) {
                prev
            } else {
                prev.push(name)
            }
        }
    }

    /// The names that a connection uses and that are neither a node nor a
    /// name from outside, each once, in the order of their first mention.
    pub open spec fn unknown(self) -> Seq<Seq<char>> {
        self.unknown_upto(2 * (self.connections.len() as int))
    }

    /// Whether some connection uses `name`.
    pub open spec fn mentions(self, name: Seq<char>) -> bool {
        exists|i: int|
            0 <= i < self.connections.len() && ((#[trigger] self.connections[i]).0 == name
                || self.connections[i].1 == name)
    }

    /// The edges of the first `n` connections: a connection between two
    /// nodes gives the pair of their ids, any other is left out.
    pub open spec fn edges_upto(self, n: int) -> Seq<Edge>
        decreases n,
    {
        if n <= 0 {
            Seq::empty()
        } else {
            let prev = self.edges_upto(n - 1);
            let c = self.connections[n - 1];
            match (self.id_of(c.0), self.id_of(c.1)) {
                (Some(a), Some(b)) => prev.push((a, b)),
                _ => prev,
            }
        }
    }

    /// The edges of the graph, in the order of the connections.
    pub open spec fn edges(self) -> Seq<Edge> {
        self.edges_upto(self.connections.len() as int)
    }
}

/// The unknown names are exactly the names that a connection mentions and
/// that are not known, and none is listed twice.
pub proof fn lemma_unknown(g: Graph, n: int)
    requires
        0 <= n <= 2 * g.connections.len(),
    ensures
        distinct(g.unknown_upto(n)),
        forall|name: Seq<char>| #[trigger]
            g.unknown_upto(n).contains(name) <==> !g.known(name) && exists|k: int|
                0 <= k < n && #[trigger] g.endpoint(k) == name,
    decreases n,
{
    if n > 0 {
        lemma_unknown(g, n - 1);
        let prev = g.unknown_upto(n - 1);
        let last = g.endpoint(n - 1);
        if !(g.known(last) || prev.contains(last)) {
            lemma_push_distinct(prev, last);
        }
        assert forall|name: Seq<char>| #[trigger]
            g.unknown_upto(n).contains(name) <==> !g.known(name) && exists|k: int|
                0 <= k < n && #[trigger] g.endpoint(k) == name by {
            lemma_push_contains(prev, last, name);
            if exists|k: int| 0 <= k < n - 1 && #[trigger] g.endpoint(k) == name {
                let k = choose|k: int| 0 <= k < n - 1 && #[trigger] g.endpoint(k) == name;
                assert(0 <= k < n && g.endpoint(k) == name);
            }
            if exists|k: int| 0 <= k < n && #[trigger] g.endpoint(k) == name {
                let k = choose|k: int| 0 <= k < n && #[trigger] g.endpoint(k) == name;
                if k < n - 1 {
                    assert(0 <= k < n - 1 && g.endpoint(k) == name);
                }
            }
            if name == last {
                assert(g.endpoint(n - 1) == name);
            }
        }
    } else {
        assert forall|name: Seq<char>| !(#[trigger] g.unknown_upto(n).contains(name)) by {
            if g.unknown_upto(n).contains(name) {
                let i = g.unknown_upto(n).index_of(name);
                assert(g.unknown_upto(n)[i] == name);
            }
        }
    }
}

impl DagZet {
    /// The names that a connection uses and that are neither a node nor a
    /// name from outside: each once, in the order of their first mention.
    pub fn check_unknown_nodes(&self) -> (r: Vec<String>)
        requires
            self.wf(),
        ensures
            texts(r@) == self@.unknown(),
            distinct(texts(r@)),
            forall|name: Seq<char>| #[trigger]
                texts(r@).contains(name) <==> self@.mentions(name) && !self@.known(name),
    {
        let mut out: Vec<String> = Vec::new();
        let n: usize = self.connections.len();
        let mut i: usize = 0;
        assert(texts(out@) =~= self@.unknown_upto(0));
        while i < n
            invariant
                self.wf(),
                n == self.connections@.len(),
                i <= n,
                texts(out@) == self@.unknown_upto(2 * i),
            decreases n - i,
        {
            let con = &self.connections[i];
            assert(self@.connections[i as int] == (con[0]@, con[1]@));
            assert(self@.endpoint(2 * i) == con[0]@);
            assert(self@.endpoint(2 * i + 1) == con[1]@);
            if !self.nodes.contains_key(con[0].as_str()) && !self.xnodes.contains(con[0].as_str())
                && !contains_text(&out, &con[0]) {
                let ghost before = texts(out@);
                out.push(con[0].clone());
                assert(texts(out@) =~= before.push(con[0]@));
            }
            assert(texts(out@) == self@.unknown_upto(2 * i + 1));
            if !self.nodes.contains_key(con[1].as_str()) && !self.xnodes.contains(con[1].as_str())
                && !contains_text(&out, &con[1]) {
                let ghost before = texts(out@);
                out.push(con[1].clone());
                assert(texts(out@) =~= before.push(con[1]@));
            }
            assert(texts(out@) == self@.unknown_upto(2 * i + 2));
            i += 1;
        }
        proof {
            let g = self@;
            lemma_unknown(g, 2 * n);
            assert forall|name: Seq<char>| #[trigger]
                texts(out@).contains(name) <==> g.mentions(name) && !g.known(name) by {
                if g.mentions(name) {
                    let c = choose|c: int|
                        0 <= c < g.connections.len() && ((#[trigger] g.connections[c]).0 == name
                            || g.connections[c].1 == name);
                    if g.connections[c].0 == name {
                        assert(g.endpoint(2 * c) == name);
                    } else {
                        assert(g.endpoint(2 * c + 1) == name);
                    }
                }
                if exists|k: int| 0 <= k < 2 * n && #[trigger] g.endpoint(k) == name {
                    let k = choose|k: int| 0 <= k < 2 * n && #[trigger] g.endpoint(k) == name;
                    let c = k / 2;
                    assert(g.connections[c].0 == name || g.connections[c].1 == name);
                }
            }
        }
        out
    }

    /// The connections between nodes as pairs of ids, in their order. A
    /// connection with an end that is no node is left out.
    pub fn generate_edges(&self) -> (r: Vec<[u32; 2]>)
        requires
            self.wf(),
        ensures
            edge_pairs(r@) == self@.edges(),
    {
        let mut out: Vec<[u32; 2]> = Vec::new();
        let n: usize = self.connections.len();
        let mut i: usize = 0;
        assert(edge_pairs(out@) =~= self@.edges_upto(0));
        while i < n
            invariant
                self.wf(),
                n == self.connections@.len(),
                i <= n,
                edge_pairs(out@) == self@.edges_upto(i as int),
            decreases n - i,
        {
            let con = &self.connections[i];
            assert(self@.connections[i as int] == (con[0]@, con[1]@));
            let left = self.nodes.get(con[0].as_str());
            let right = self.nodes.get(con[1].as_str());
            proof {
                if left.is_some() {
                    let k = self@.nodelist.index_of(con[0]@);
                    assert(self@.nodelist[k] == con[0]@);
                }
                if right.is_some() {
                    let k = self@.nodelist.index_of(con[1]@);
                    assert(self@.nodelist[k] == con[1]@);
                }
            }
            match (left, right) {
                (Some(a), Some(b)) => {
                    let ghost before = edge_pairs(out@);
                    out.push([*a, *b]);
                    assert(edge_pairs(out@) =~= before.push((*a, *b)));
                },
                _ => {},
            }
            i += 1;
        }
        out
    }
}

/// The nodes of a list, as a set.
pub open spec fn members(v: Seq<u32>) -> Set<u32> {
    Set::new(|n: u32| v.contains(n))
}

/// An edge into `m` that is kept was there before, and an edge into `m` that
/// was there is kept unless it is dropped.
pub proof fn lemma_incoming_kept(edges: Seq<Edge>, dropped: Set<Edge>, m: u32)
    ensures
        has_incoming(kept(edges, dropped), m) ==> has_incoming(edges, m),
        has_incoming(edges, m) && (forall|e: Edge| dropped.contains(e) ==> e.1 != m)
            ==> has_incoming(kept(edges, dropped), m),
{
    lemma_kept(edges, dropped);
    let k = kept(edges, dropped);
    if has_incoming(k, m) {
        let i = choose|i: int| 0 <= i < k.len() && (#[trigger] k[i]).1 == m;
        assert(k.contains(k[i]));
        let j = edges.index_of(k[i]);
        assert(edges[j].1 == m);
    }
    if has_incoming(edges, m) && (forall|e: Edge| dropped.contains(e) ==> e.1 != m) {
        let i = choose|i: int| 0 <= i < edges.len() && (#[trigger] edges[i]).1 == m;
        assert(edges.contains(edges[i]));
        assert(k.contains(edges[i]));
        let j = k.index_of(edges[i]);
        assert(k[j].1 == m);
    }
}

/// The node ids from 1 to `count` that no edge leads to.
pub fn first_frontier(count: u32, edges: &Vec<[u32; 2]>) -> (r: Vec<u32>)
    ensures
        members(r@) == roots(edge_pairs(edges@), count as nat),
{
    let mut out: Vec<u32> = Vec::new();
    let mut id: u32 = 0;
    while id < count
        invariant
            id <= count,
            forall|n: u32|
                out@.contains(n) <==> 1 <= n && n <= id && !has_incoming(edge_pairs(edges@), n),
        decreases count - id,
    {
        id += 1;
        let ghost before = out@;
        if no_incoming_nodes(id, edges) {
            out.push(id);
        }
        assert forall|n: u32|
            out@.contains(n) <==> 1 <= n && n <= id && !has_incoming(edge_pairs(edges@), n) by {
            lemma_push_contains(before, id, n);
        }
    }
    assert(members(out@) =~= roots(edge_pairs(edges@), count as nat));
    out
}

/// Removes the edges that leave `node`, and adds to `next` every node that
/// such an edge led to and that no edge leads to any more.
pub fn release(edges: &mut Vec<[u32; 2]>, node: u32, next: &mut Vec<u32>)
    ensures
        edge_pairs(final(edges)@) == kept(edge_pairs(old(edges)@), leaving(set![node])),
        forall|m: u32|
            final(next)@.contains(m) <==> old(next)@.contains(m) || (edge_pairs(
                old(edges)@,
            ).contains((node, m)) && !has_incoming(edge_pairs(final(edges)@), m)),
{
    let targets = nodes_connected_to(node, edges);
    let ghost start = edge_pairs(edges@);
    let ghost mut gone: Set<Edge> = Set::empty();
    let n: usize = targets.len();
    let mut k: usize = 0;
    proof {
        lemma_kept_nothing(start, start.len() as int);
        assert(start.subrange(0, start.len() as int) =~= start);
    }
    while k < n
        invariant
            n == targets@.len(),
            k <= n,
            distinct(targets@),
            forall|m: u32| targets@.contains(m) <==> start.contains((node, m)),
            edge_pairs(edges@) == kept(start, gone),
            forall|e: Edge| gone.contains(e) <==> e.0 == node && targets@.subrange(0, k as int).contains(e.1),
            forall|m: u32| #[trigger]
                next@.contains(m) <==> old(next)@.contains(m) || (targets@.subrange(
                    0,
                    k as int,
                ).contains(m) && !has_incoming(edge_pairs(edges@), m)),
        decreases n - k,
    {
        let m: u32 = targets[k];
        let ghost cur = edge_pairs(edges@);
        let ghost seen = targets@.subrange(0, k as int);
        let ghost before = next@;
        remove_edge(edges, node, m);
        if no_incoming_nodes(m, edges) && !holds(next, m) {
            next.push(m);
        }
        proof {
            let one = set![(node, m)];
            lemma_kept_twice(start, gone, one, start.len() as int);
            gone = gone.union(one);
            let now = edge_pairs(edges@);
            assert(now == kept(start, gone));
            assert(targets@.subrange(0, k + 1) =~= seen.push(m));
            assert forall|e: Edge|
                gone.contains(e) <==> e.0 == node && targets@.subrange(0, k + 1).contains(
                    e.1,
                ) by {
                lemma_push_contains(seen, m, e.1);
            }
            assert forall|x: u32| #[trigger]
                next@.contains(x) <==> old(next)@.contains(x) || (targets@.subrange(
                    0,
                    k + 1,
                ).contains(x) && !has_incoming(now, x)) by {
                lemma_push_contains(seen, m, x);
                lemma_push_contains(before, m, x);
                lemma_incoming_kept(cur, one, x);
                if seen.contains(m) {
                    let j = seen.index_of(m);
                    assert(targets@[j] == targets@[k as int]);
                }
                assert(before.contains(x) <==> old(next)@.contains(x) || (seen.contains(x)
                    && !has_incoming(cur, x)));
                if x != m {
                    assert(has_incoming(now, x) <==> has_incoming(cur, x));
                    assert(next@.contains(x) <==> before.contains(x));
                } else {
                    assert(!seen.contains(m));
                    assert(next@.contains(m) <==> before.contains(m) || !has_incoming(now, m));
                }
            }
        }
        k += 1;
    }
    proof {
        assert(targets@.subrange(0, n as int) =~= targets@);
        assert forall|i: int| 0 <= i < start.len() implies (gone.contains(#[trigger] start[i])
            <==> leaving(set![node]).contains(start[i])) by {
            assert(start.contains(start[i]));
        }
        lemma_kept_agree(start, gone, leaving(set![node]), start.len() as int);
    }
}

/// One round: removes the edges that leave a node of `frontier` and gives
/// the nodes that this has released.
pub fn round(edges: &mut Vec<[u32; 2]>, frontier: &Vec<u32>) -> (next: Vec<u32>)
    ensures
        edge_pairs(final(edges)@) == strip(edge_pairs(old(edges)@), members(frontier@)),
        members(next@) == released(edge_pairs(old(edges)@), members(frontier@)),
{
    let mut next: Vec<u32> = Vec::new();
    let ghost start = edge_pairs(edges@);
    let ghost mut done: Set<u32> = Set::empty();
    let n: usize = frontier.len();
    let mut k: usize = 0;
    proof {
        lemma_kept(start, leaving(done));
        assert(kept(start, leaving(done)).len() == start.len()) by {
            lemma_kept_agree(start, leaving(done), Set::empty(), start.len() as int);
            lemma_kept_nothing(start, start.len() as int);
        }
    }
    while k < n
        invariant
            n == frontier@.len(),
            k <= n,
            start == edge_pairs(old(edges)@),
            forall|x: u32| done.contains(x) <==> frontier@.subrange(0, k as int).contains(x),
            edge_pairs(edges@) == strip(start, done),
            forall|m: u32|
                next@.contains(m) <==> fed_by(start, done, m) && !has_incoming(
                    edge_pairs(edges@),
                    m,
                ),
        decreases n - k,
    {
        let node: u32 = frontier[k];
        let ghost cur = edge_pairs(edges@);
        let ghost before = next@;
        let ghost seen = frontier@.subrange(0, k as int);
        release(edges, node, &mut next);
        proof {
            let now = edge_pairs(edges@);
            let more = done.insert(node);
            lemma_kept_twice(start, leaving(done), leaving(set![node]), start.len() as int);
            assert(leaving(done).union(leaving(set![node])) =~= leaving(more));
            assert(now == strip(start, more));
            assert(frontier@.subrange(0, k + 1) =~= seen.push(node));
            assert forall|x: u32| more.contains(x) <==> frontier@.subrange(0, k + 1).contains(
                x,
            ) by {
                lemma_push_contains(seen, node, x);
            }
            lemma_kept(start, leaving(done));
            lemma_kept(start, leaving(more));
            assert forall|m: u32|
                next@.contains(m) <==> fed_by(start, more, m) && !has_incoming(now, m) by {
                lemma_incoming_kept(cur, leaving(set![node]), m);
                if cur.contains((node, m)) {
                    assert(start.contains((node, m)));
                    let i = start.index_of((node, m));
                    assert(more.contains(start[i].0) && start[i].1 == m);
                }
                if fed_by(start, done, m) {
                    let i = choose|i: int|
                        0 <= i < start.len() && done.contains((#[trigger] start[i]).0)
                            && start[i].1 == m;
                    assert(more.contains(start[i].0) && start[i].1 == m);
                }
                if fed_by(start, more, m) && !has_incoming(now, m) && !before.contains(m) {
                    if has_incoming(cur, m) {
                        let j = choose|j: int| 0 <= j < cur.len() && (#[trigger] cur[j]).1 == m;
                        assert(cur.contains(cur[j]));
                        lemma_kept(cur, leaving(set![node]));
                        if cur[j].0 != node {
                            assert(now.contains(cur[j]));
                            let t = now.index_of(cur[j]);
                            assert(now[t].1 == m);
                        }
                        assert(cur[j] == (node, m));
                    } else {
                        let i = choose|i: int|
                            0 <= i < start.len() && more.contains((#[trigger] start[i]).0)
                                && start[i].1 == m;
                        if done.contains(start[i].0) {
                            assert(fed_by(start, done, m));
                        } else {
                            assert(start.contains(start[i]));
                            assert(cur.contains(start[i]));
                            let t = cur.index_of(start[i]);
                            assert(cur[t].1 == m);
                        }
                    }
                }
            }
            done = more;
        }
        k += 1;
    }
    proof {
        assert(frontier@.subrange(0, n as int) =~= frontier@);
        assert(done =~= members(frontier@));
        assert(members(next@) =~= released(start, members(frontier@)));
    }
    next
}

/// Where nothing is dropped, everything is kept.
pub proof fn lemma_kept_nothing(edges: Seq<Edge>, n: int)
    requires
        0 <= n <= edges.len(),
    ensures
        kept_upto(edges, Set::empty(), n) == edges.subrange(0, n),
    decreases n,
{
    if n > 0 {
        lemma_kept_nothing(edges, n - 1);
    }
    assert(kept_upto(edges, Set::empty(), n) =~= edges.subrange(0, n));
}

/// The edges of `live` whose reverse is among them too.
pub fn mutual_edges(live: &Vec<[u32; 2]>) -> (r: Vec<[u32; 2]>)
    ensures
        edge_pairs(r@) == mutual(edge_pairs(live@)),
{
    let mut found: Vec<[u32; 2]> = Vec::new();
    let n: usize = live.len();
    let ghost all = edge_pairs(live@);
    let ghost lone = Set::new(|e: Edge| !all.contains((e.1, e.0)));
    let mut i: usize = 0;
    while i < n
        invariant
            n == live@.len(),
            i <= n,
            all == edge_pairs(live@),
            lone == Set::new(|e: Edge| !all.contains((e.1, e.0))),
            edge_pairs(found@) == kept_upto(all, lone, i as int),
        decreases n - i,
    {
        let e = live[i];
        assert(all[i as int] == (e[0], e[1]));
        if does_loop_exist(live, e[0], e[1]) {
            let ghost before = edge_pairs(found@);
            found.push(e);
            assert(edge_pairs(found@) =~= before.push((e[0], e[1])));
        }
        i += 1;
    }
    found
}

impl DagZet {
    /// Looks for cycles among `edges` on the nodes of the graph. Nodes
    /// without incoming edges are peeled off round by round, together with
    /// the edges that leave them. If no edge is left, there is no cycle.
    /// Otherwise the edges that are left and whose reverse is left too are
    /// reported or, where there is none such, all that are left.
    pub fn check_for_loops(&mut self, edges: &[[u32; 2]]) -> (r: Result<ReturnCode, Vec<[u32; 2]>>)
        requires
            old(self).wf(),
        ensures
            *final(self) == *old(self),
            match r {
                Ok(code) => code == ReturnCode::Okay && loops(
                    edge_pairs(edges@),
                    old(self)@.nodelist.len(),
                ).len() == 0,
                Err(found) => found@.len() > 0 && edge_pairs(found@) == loops(
                    edge_pairs(edges@),
                    old(self)@.nodelist.len(),
                ),
            },
    {
        let count: u32 = self.nodelist.len() as u32;
        let mut live: Vec<[u32; 2]> = Vec::new();
        let mut i: usize = 0;
        while i < edges.len()
            invariant
                i <= edges@.len(),
                live@ == edges@.subrange(0, i as int),
            decreases edges@.len() - i,
        {
            live.push(edges[i]);
            i += 1;
            assert(live@ =~= edges@.subrange(0, i as int));
        }
        assert(live@ =~= edges@);
        let ghost all = edge_pairs(edges@);
        let mut frontier = first_frontier(count, &live);
        while frontier.len() > 0
            invariant
                peel(edge_pairs(live@), members(frontier@)) == peel(all, roots(all, count as nat)),
            decreases live@.len(), frontier@.len(),
        {
            proof {
                assert(members(frontier@).contains(frontier@[0]));
                lemma_round_shrinks(edge_pairs(live@), members(frontier@));
            }
            let ghost before = live@;
            let next = round(&mut live, &frontier);
            proof {
                if live@.len() == before.len() {
                    if next@.len() > 0 {
                        assert(members(next@).contains(next@[0]));
                    }
                }
            }
            frontier = next;
        }
        proof {
            assert forall|n: u32| !members(frontier@).contains(n) by {
                if frontier@.contains(n) {
                    let j = frontier@.index_of(n);
                }
            }
            lemma_kept(edge_pairs(live@), Set::new(|e: Edge| !edge_pairs(live@).contains((e.1, e.0))));
        }
        if live.len() == 0 {
            return Ok(ReturnCode::Okay);
        }
        let found = mutual_edges(&live);
        if found.len() > 0 {
            Err(found)
        } else {
            Err(live)
        }
    }
}

} // verus!
