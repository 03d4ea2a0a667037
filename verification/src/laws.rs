//! What holds of the graph whatever the lines are.

use crate::dagzet::DagZet;
use crate::model::{
    distinct, lemma_graph_remark_wf, lemma_new_node_wf, lemma_push_contains, lemma_push_distinct,
    opcode_of, Graph, Opcode, ReturnCode,
};
use crate::resolve::connect_side;
use crate::text::{qualified, tokens};
use vstd::prelude::*;

verus! {

impl Graph {
    /// The graph after the first `n` of `lines`, taken in order; a line that
    /// fails is passed over.
    pub open spec fn run_upto(self, lines: Seq<Seq<char>>, n: int) -> Graph
        decreases n,
    {
        if n <= 0 {
            self
        } else {
            self.run_upto(lines, n - 1).after(lines[n - 1])
        }
    }

    /// The graph after `lines`.
    pub open spec fn run(self, lines: Seq<Seq<char>>) -> Graph {
        self.run_upto(lines, lines.len() as int)
    }
}

/// Whether `line` is the directive `op` with the argument `arg`.
pub open spec fn directive(line: Seq<char>, op: Opcode, arg: Seq<char>) -> bool {
    &&& line.len() >= 3
    &&& opcode_of(line[0], line[1]) == Some(op)
    &&& line.subrange(3, line.len() as int) == arg
}

/// A directive keeps the graph well formed.
pub proof fn law_apply_keeps_wf(g: Graph, op: Opcode, arg: Seq<char>)
    requires
        g.wf(),
        g.apply(op, arg).is_ok(),
    ensures
        g.apply(op, arg).unwrap().wf(),
{
    match op {
        Opcode::GraphRemark => {
            lemma_graph_remark_wf(g, arg);
        },
        Opcode::NewNode => {
            lemma_new_node_wf(g, arg);
        },
        Opcode::Connect => {
            let h = g.connect(arg).unwrap();
            lemma_push_distinct(g.connections, h.connections.last());
            assert(h.connections =~= g.connections.push(h.connections.last()));
        },
        Opcode::CrossConnect => {
            let h = g.cross_connect(arg).unwrap();
            lemma_push_distinct(g.connections, h.connections.last());
            assert(h.connections =~= g.connections.push(h.connections.last()));
        },
        Opcode::SelectNode => {
            let name = qualified(g.namespace.unwrap(), tokens(arg)[0]);
            let i = g.nodelist.index_of(name);
            assert(g.nodelist[i] == name);
        },
        _ => {},
    }
}

/// Every line keeps the graph well formed, whether it succeeds or fails.
pub proof fn law_line_keeps_wf(g: Graph, line: Seq<char>)
    requires
        g.wf(),
    ensures
        g.after(line).wf(),
{
    if line.len() >= 3 {
        match opcode_of(line[0], line[1]) {
            Some(op) => {
                let arg = line.subrange(3, line.len() as int);
                if g.apply(op, arg).is_ok() {
                    law_apply_keeps_wf(g, op, arg);
                }
            },
            None => {},
        }
    }
}

/// A line never removes or renames a node: the node list only grows at its
/// end.
pub proof fn law_nodes_stay(g: Graph, line: Seq<char>)
    ensures
        g.nodelist.len() <= g.after(line).nodelist.len(),
        forall|i: int| 0 <= i < g.nodelist.len() ==> g.after(line).nodelist[i] == g.nodelist[i],
{
}

/// Lines never remove or rename a node.
pub proof fn law_nodes_stay_run(g: Graph, lines: Seq<Seq<char>>, n: int)
    requires
        0 <= n <= lines.len(),
    ensures
        g.nodelist.len() <= g.run_upto(lines, n).nodelist.len(),
        forall|i: int|
            0 <= i < g.nodelist.len() ==> g.run_upto(lines, n).nodelist[i] == g.nodelist[i],
        g.wf() ==> g.run_upto(lines, n).wf(),
    decreases n,
{
    if n > 0 {
        law_nodes_stay_run(g, lines, n - 1);
        law_nodes_stay(g.run_upto(lines, n - 1), lines[n - 1]);
        if g.wf() {
            law_line_keeps_wf(g.run_upto(lines, n - 1), lines[n - 1]);
        }
    }
}

/// The ids are the places in the order of creation, counted from 1: the
/// node at index `i` of the node list has the id `i + 1`, and no other.
pub proof fn law_ids_follow_creation(g: Graph, i: int)
    requires
        g.wf(),
        0 <= i < g.nodelist.len(),
    ensures
        g.id_of(g.nodelist[i]) == Some((i + 1) as u32),
{
    let name = g.nodelist[i];
    let j = g.nodelist.index_of(name);
    assert(g.nodelist[j] == name);
    if j < i {
        assert(g.nodelist[j] != g.nodelist[i]);
    } else if i < j {
        assert(g.nodelist[i] != g.nodelist[j]);
    }
}

/// A new node gets the id after the greatest id so far and becomes the
/// current node; the ids of the other nodes stay.
pub proof fn law_new_node_id(g: Graph, arg: Seq<char>)
    requires
        g.wf(),
        g.new_node(arg).is_ok(),
    ensures
        ({
            let h = g.new_node(arg).unwrap();
            let name = qualified(g.namespace.unwrap(), arg);
            &&& h.nodelist.len() == g.nodelist.len() + 1
            &&& h.id_of(name) == Some((g.nodelist.len() + 1) as u32)
            &&& h.curnode == h.id_of(name)
            &&& forall|i: int| 0 <= i < g.nodelist.len() ==> h.id_of(g.nodelist[i]) == g.id_of(g.nodelist[i])
        }),
{
    let h = g.new_node(arg).unwrap();
    lemma_new_node_wf(g, arg);
    law_ids_follow_creation(h, g.nodelist.len() as int);
    assert forall|i: int| 0 <= i < g.nodelist.len() implies h.id_of(g.nodelist[i]) == g.id_of(
        g.nodelist[i],
    ) by {
        law_ids_follow_creation(g, i);
        assert(h.nodelist[i] == g.nodelist[i]);
        law_ids_follow_creation(h, i);
    }
}

/// The table of ids of a builder has as many entries as the node list, and
/// holds for the node at index `i` the id `i + 1`.
pub proof fn law_node_table(dz: &DagZet)
    requires
        dz.wf(),
    ensures
        dz.nodes@.dom().finite(),
        dz.nodes@.len() == dz.nodelist@.len(),
        forall|i: int|
            0 <= i < dz.nodelist@.len() ==> dz.nodes@[#[trigger] dz.nodelist@[i]@] == i + 1,
{
    let names = dz@.nodelist;
    assert(dz.nodes@.dom() =~= names.to_set()) by {
        assert forall|name: Seq<char>| dz.nodes@.dom().contains(name) <==> names.to_set().contains(
            name,
        ) by {
            assert(dz.nodes@.contains_key(name) <==> names.contains(name));
        }
    }
    assert(names.no_duplicates()) by {
        assert forall|i: int, j: int| 0 <= i < names.len() && 0 <= j < names.len() && i != j implies names[i]
            != names[j] by {
            if i < j {
                assert(names[i] != names[j]);
            } else {
                assert(names[j] != names[i]);
            }
        }
    }
    names.unique_seq_to_set();
    vstd::seq_lib::seq_to_set_is_finite(names);
    assert forall|i: int| 0 <= i < dz.nodelist@.len() implies dz.nodes@[#[trigger] dz.nodelist@[i]@]
        == i + 1 by {
        assert(names[i] == dz.nodelist@[i]@);
    }
}

/// Declaring a node under a name that a node has fails, whatever lines came
/// in between, as long as the namespace is the same again: the code says
/// that the node exists, and the graph stays as it was.
pub proof fn law_duplicate_node(
    g: Graph,
    arg: Seq<char>,
    between: Seq<Seq<char>>,
    line: Seq<char>,
)
    requires
        g.wf(),
        g.new_node(arg).is_ok(),
        g.new_node(arg).unwrap().run(between).namespace == g.namespace,
        directive(line, Opcode::NewNode, arg),
    ensures
        ({
            let h = g.new_node(arg).unwrap().run(between);
            &&& h.interpret(line) == Err::<Graph, ReturnCode>(ReturnCode::NodeAlreadyExists)
            &&& h.after(line) == h
        }),
{
    let first = g.new_node(arg).unwrap();
    let h = first.run(between);
    let name = qualified(g.namespace.unwrap(), arg);
    law_nodes_stay_run(first, between, between.len() as int);
    assert(first.nodelist[g.nodelist.len() as int] == name);
    assert(h.nodelist[g.nodelist.len() as int] == name);
}

/// A connection cannot be made twice, and the order of its ends counts:
/// after a connection from one name to another, the same directive fails
/// because the two are connected, and the directive with the two tokens
/// exchanged succeeds, provided that the two ends differ and that the
/// reverse connection was not there before.
pub proof fn law_connect_ordered(g: Graph, arg: Seq<char>, swapped: Seq<char>)
    requires
        g.wf(),
        g.connect(arg).is_ok(),
        tokens(swapped).len() >= 2,
        tokens(swapped)[0] == tokens(arg)[1],
        tokens(swapped)[1] == tokens(arg)[0],
        g.connect(arg).unwrap().connections.last().0 != g.connect(
            arg,
        ).unwrap().connections.last().1,
        !g.connected(
            g.connect(arg).unwrap().connections.last().1,
            g.connect(arg).unwrap().connections.last().0,
        ),
    ensures
        ({
            let h = g.connect(arg).unwrap();
            let made = h.connections.last();
            &&& h.connect(arg) == Err::<Graph, ReturnCode>(ReturnCode::AlreadyConnected)
            &&& h.connect(swapped).is_ok()
            &&& h.connect(swapped).unwrap().connections == h.connections.push((made.1, made.0))
        }),
{
    let h = g.connect(arg).unwrap();
    let made = h.connections.last();
    assert(h.connections[h.connections.len() - 1] == made);
    lemma_push_contains(g.connections, made, (made.1, made.0));
    assert(h.connections =~= g.connections.push(made));
}

/// The dollar sign needs a current node: without one, a connection that
/// uses it fails because no node is selected.
pub proof fn law_dollar_needs_node(g: Graph, arg: Seq<char>)
    requires
        g.namespace.is_some(),
        g.curnode.is_none(),
        tokens(arg).len() >= 2,
        tokens(arg)[0] == seq!['$'] || tokens(arg)[1] == seq!['$'],
    ensures
        g.connect(arg) == Err::<Graph, ReturnCode>(ReturnCode::NodeNotSelected),
{
}

/// After a node has been created, the dollar sign stands for it: a
/// connection whose left token is the dollar sign either starts at the new
/// node, under its qualified name, or fails because the two are connected.
pub proof fn law_dollar_is_new_node(g: Graph, name: Seq<char>, arg: Seq<char>)
    requires
        g.wf(),
        g.new_node(name).is_ok(),
        tokens(arg).len() >= 2,
        tokens(arg)[0] == seq!['$'],
    ensures
        ({
            let h = g.new_node(name).unwrap();
            let full = qualified(g.namespace.unwrap(), name);
            &&& connect_side(h.namespace.unwrap(), h.current_path(), tokens(arg)[0]) == full
            &&& match h.connect(arg) {
                Ok(k) => k.connections.len() == h.connections.len() + 1 && k.connections.last().0
                    == full,
                Err(e) => e == ReturnCode::AlreadyConnected,
            }
        }),
{
    let h = g.new_node(name).unwrap();
    assert(h.nodelist[g.nodelist.len() as int] == qualified(g.namespace.unwrap(), name));
}

/// Whether both ends of an edge are ids from 1 to `count`.
pub open spec fn joins(e: (u32, u32), count: nat) -> bool {
    1 <= e.0 <= count && 1 <= e.1 <= count
}

/// The edges of a well-formed graph join nodes: both ends of every edge
/// are ids from 1 to the number of nodes.
pub proof fn law_edges_join_nodes(g: Graph, n: int)
    requires
        g.wf(),
        0 <= n <= g.connections.len(),
    ensures
        forall|i: int|
            0 <= i < g.edges_upto(n).len() ==> joins(#[trigger] g.edges_upto(n)[i], g.nodelist.len()),
    decreases n,
{
    if n > 0 {
        law_edges_join_nodes(g, n - 1);
        let c = g.connections[n - 1];
        let prev = g.edges_upto(n - 1);
        if g.nodelist.contains(c.0) {
            let i = g.nodelist.index_of(c.0);
            assert(g.nodelist[i] == c.0);
        }
        if g.nodelist.contains(c.1) {
            let i = g.nodelist.index_of(c.1);
            assert(g.nodelist[i] == c.1);
        }
        assert forall|i: int| 0 <= i < g.edges_upto(n).len() implies joins(
            #[trigger] g.edges_upto(n)[i],
            g.nodelist.len(),
        ) by {
            if i < prev.len() {
                assert(g.edges_upto(n)[i] == prev[i]);
            }
        }
    }
}

/// A line never removes or changes a connection: the list of connections
/// only grows at its end.
pub proof fn law_connections_stay(g: Graph, line: Seq<char>)
    ensures
        g.connections.len() <= g.after(line).connections.len(),
        forall|i: int|
            0 <= i < g.connections.len() ==> g.after(line).connections[i] == g.connections[i],
{
}

/// Whether `e` is the edge of one of the first `n` connections.
pub open spec fn edge_among(g: Graph, n: int, e: (u32, u32)) -> bool {
    exists|k: int|
        0 <= k < n && g.id_of((#[trigger] g.connections[k]).0) == Some(e.0) && g.id_of(
            g.connections[k].1,
        ) == Some(e.1)
}

/// Every edge comes from a connection.
pub proof fn lemma_edges_come_from_connections(g: Graph, n: int)
    requires
        0 <= n <= g.connections.len(),
    ensures
        forall|i: int|
            0 <= i < g.edges_upto(n).len() ==> edge_among(g, n, #[trigger] g.edges_upto(n)[i]),
    decreases n,
{
    if n > 0 {
        lemma_edges_come_from_connections(g, n - 1);
        let prev = g.edges_upto(n - 1);
        let cur = g.edges_upto(n);
        assert forall|i: int| 0 <= i < cur.len() implies edge_among(g, n, #[trigger] cur[i]) by {
            if i < prev.len() {
                assert(cur[i] == prev[i]);
                assert(edge_among(g, n - 1, prev[i]));
                let k = choose|k: int|
                    0 <= k < n - 1 && g.id_of((#[trigger] g.connections[k]).0) == Some(prev[i].0)
                        && g.id_of(g.connections[k].1) == Some(prev[i].1);
                assert(0 <= k < n && g.id_of(g.connections[k].0) == Some(cur[i].0));
            } else {
                assert(g.id_of(g.connections[n - 1].0) == Some(cur[i].0));
            }
        }
    }
}

/// Two names with the same id are the same name.
pub proof fn lemma_id_names(g: Graph, a: Seq<char>, b: Seq<char>)
    requires
        g.wf(),
        g.id_of(a).is_some(),
        g.id_of(a) == g.id_of(b),
    ensures
        a == b,
{
    let i = g.nodelist.index_of(a);
    let j = g.nodelist.index_of(b);
    assert(g.nodelist[i] == a);
    assert(g.nodelist[j] == b);
}

/// The edges of a well-formed graph are distinct: no pair of ids occurs
/// twice.
pub proof fn law_edges_distinct(g: Graph, n: int)
    requires
        g.wf(),
        0 <= n <= g.connections.len(),
    ensures
        distinct(g.edges_upto(n)),
    decreases n,
{
    if n > 0 {
        law_edges_distinct(g, n - 1);
        lemma_edges_come_from_connections(g, n - 1);
        let prev = g.edges_upto(n - 1);
        let cur = g.edges_upto(n);
        let c = g.connections[n - 1];
        if cur.len() > prev.len() {
            let e = cur[prev.len() as int];
            assert forall|i: int, j: int| 0 <= i < j < cur.len() implies cur[i] != cur[j] by {
                if j == prev.len() {
                    assert(cur[i] == prev[i]);
                    if prev[i] == e {
                        assert(edge_among(g, n - 1, prev[i]));
                        let k = choose|k: int|
                            0 <= k < n - 1 && g.id_of((#[trigger] g.connections[k]).0) == Some(
                                prev[i].0,
                            ) && g.id_of(g.connections[k].1) == Some(prev[i].1);
                        lemma_id_names(g, c.0, g.connections[k].0);
                        lemma_id_names(g, c.1, g.connections[k].1);
                        assert(g.connections[k] == g.connections[n - 1]);
                    }
                } else {
                    assert(cur[i] == prev[i]);
                    assert(cur[j] == prev[j]);
                }
            }
        }
    }
}

} // verus!
