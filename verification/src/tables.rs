//! The tables of the graph as SQLite text: for each kind of data a table,
//! its rows, and the script that creates the table and fills it.

use crate::dagzet::{clone_lines, DagZet, FileRange, FlashCard};
use crate::model::{Graph, Lines};
use crate::sqlite::{Param, ParamType, Row, SQLize, Table};
use std::collections::HashMap;
use crate::text::{
    decimal, decimal_i32, decimal_text, join, joined, push_char, signed_text, texts, to_chars,
};
use vstd::prelude::*;

verus! {

broadcast use vstd::std_specs::hash::group_hash_axioms;

/// A table that can write the script which creates and fills it.
pub trait Generate {
    /// The script for the graph `g`.
    open spec fn script(&self, g: Graph) -> Seq<char> {
        arbitrary()
    }

    /// Writes the script for the graph that `dz` has built.
    fn generate(&self, dz: &DagZet) -> (r: String)
        requires
            dz.wf(),
        ensures
            r@ == self.script(dz@),
    ;
}

/// The expression that looks up the id of the node called `name`.
pub open spec fn lookup_text(name: Seq<char>) -> Seq<char> {
    "(SELECT id from dz_nodes WHERE name IS '"@ + name + "' LIMIT 1)"@
}

/// Writes the expression that looks up the id of the node called `name`.
pub fn name_lookup(name: &String) -> (r: String)
    ensures
        r@ == lookup_text(name@),
{
    let mut out = "(SELECT id from dz_nodes WHERE name IS '".to_owned();
    out.append(name.as_str());
    out.append("' LIMIT 1)");
    out
}

/// A character inside a quoted SQLite text: the single quote is doubled.
pub open spec fn quote_char(c: char) -> Seq<char> {
    if c == '\'' {
        seq!['\'', '\'']
    } else {
        seq![c]
    }
}

/// The first `n` characters of `s` for a quoted SQLite text.
pub open spec fn quotes_upto(s: Seq<char>, n: int) -> Seq<char>
    decreases n,
{
    if n <= 0 {
        Seq::empty()
    } else {
        quotes_upto(s, n - 1) + quote_char(s[n - 1])
    }
}

/// `s` for a quoted SQLite text: every single quote is doubled.
pub open spec fn quotes_escaped(s: Seq<char>) -> Seq<char> {
    quotes_upto(s, s.len() as int)
}

/// Doubles every single quote of `s`.
pub fn escape_quotes(s: &str) -> (r: String)
    ensures
        r@ == quotes_escaped(s@),
{
    let cs = to_chars(s);
    let mut out = String::new();
    let n: usize = cs.len();
    let mut i: usize = 0;
    while i < n
        invariant
            cs@ == s@,
            n == cs@.len(),
            i <= n,
            out@ == quotes_upto(s@, i as int),
        decreases n - i,
    {
        let c: char = cs[i];
        let ghost before = out@;
        if c == '\'' {
            push_char(&mut out, '\'');
            push_char(&mut out, '\'');
            assert(out@ =~= before + seq!['\'', '\'']);
        } else {
            push_char(&mut out, c);
            assert(out@ =~= before + seq![c]);
        }
        i += 1;
    }
    out
}

/// A character inside a JSON string that stands in a quoted SQLite text:
/// the single quote is doubled, the backslash and the double quote get a
/// backslash before them.
pub open spec fn json_char(c: char) -> Seq<char> {
    if c == '\'' {
        seq!['\'', '\'']
    } else if c == '\\' {
        seq!['\\', '\\']
    } else if c == '"' {
        seq!['\\', '"']
    } else {
        seq![c]
    }
}

/// The first `n` characters of `s` inside a JSON string.
pub open spec fn json_upto(s: Seq<char>, n: int) -> Seq<char>
    decreases n,
{
    if n <= 0 {
        Seq::empty()
    } else {
        json_upto(s, n - 1) + json_char(s[n - 1])
    }
}

/// `s` as a JSON string, between double quotes.
pub open spec fn json_string(s: Seq<char>) -> Seq<char> {
    seq!['"'] + json_upto(s, s.len() as int) + seq!['"']
}

/// The first `n` of `lines` as JSON strings.
pub open spec fn json_items(lines: Lines, n: int) -> Seq<Seq<char>>
    decreases n,
{
    if n <= 0 {
        Seq::empty()
    } else {
        json_items(lines, n - 1).push(json_string(lines[n - 1]))
    }
}

/// `lines` as a JSON list of strings.
pub open spec fn json_list(lines: Lines) -> Seq<char> {
    seq!['['] + joined(json_items(lines, lines.len() as int), seq![',']) + seq![']']
}

/// Writes `s` as a JSON string.
pub fn json_quote(s: &str) -> (r: String)
    ensures
        r@ == json_string(s@),
{
    let cs = to_chars(s);
    let mut out = String::new();
    push_char(&mut out, '"');
    assert(out@ =~= seq!['"']);
    let n: usize = cs.len();
    let mut i: usize = 0;
    while i < n
        invariant
            cs@ == s@,
            n == cs@.len(),
            i <= n,
            out@ == seq!['"'] + json_upto(s@, i as int),
        decreases n - i,
    {
        let c: char = cs[i];
        let ghost before = out@;
        if c == '\'' {
            push_char(&mut out, '\'');
            push_char(&mut out, '\'');
            assert(out@ =~= before + seq!['\'', '\'']);
        } else if c == '\\' {
            push_char(&mut out, '\\');
            push_char(&mut out, '\\');
            assert(out@ =~= before + seq!['\\', '\\']);
        } else if c == '"' {
            push_char(&mut out, '\\');
            push_char(&mut out, '"');
            assert(out@ =~= before + seq!['\\', '"']);
        } else {
            push_char(&mut out, c);
            assert(out@ =~= before + seq![c]);
        }
        assert(out@ =~= seq!['"'] + json_upto(s@, i + 1));
        i += 1;
    }
    push_char(&mut out, '"');
    out
}

/// Writes `lines` as a JSON list of strings.
pub fn lines_to_json(lines: &Vec<String>) -> (r: String)
    ensures
        r@ == json_list(texts(lines@)),
{
    let mut items: Vec<String> = Vec::new();
    let n: usize = lines.len();
    let mut i: usize = 0;
    while i < n
        invariant
            n == lines@.len(),
            i <= n,
            texts(items@) == json_items(texts(lines@), i as int),
        decreases n - i,
    {
        let ghost before = texts(items@);
        assert(texts(lines@)[i as int] == lines@[i as int]@);
        items.push(json_quote(lines[i].as_str()));
        assert(texts(items@) =~= before.push(json_string(lines@[i as int]@)));
        i += 1;
    }
    let mut out = String::new();
    push_char(&mut out, '[');
    assert(out@ =~= seq!['[']);
    proof {
        reveal_strlit(",");
        assert(","@ =~= seq![',']);
    }
    out.append(join(&items, ",").as_str());
    push_char(&mut out, ']');
    out
}

/// Whether `t` has the given name and columns.
pub open spec fn laid_out<T>(t: Table<T>, name: Seq<char>, columns: Seq<(Seq<char>, ParamType)>) -> bool {
    &&& t.name@ == name
    &&& t.columns@.len() == columns.len()
    &&& forall|i: int|
        0 <= i < columns.len() ==> (#[trigger] t.columns@[i]).name@ == columns[i].0
            && t.columns@[i].ptype == columns[i].1
}

/// The table of the nodes.
pub struct NodesTable;

/// A node: its qualified name and its id.
pub struct NodesRow {
    pub name: String,
    pub position: u32,
}

impl Row<NodesTable> for NodesRow {
    open spec fn values(&self) -> Seq<char> {
        "'"@ + self.name@ + "', "@ + decimal_text(self.position as nat)
    }

    fn sqlize_values(&self) -> (r: String) {
        let mut out = "'".to_owned();
        out.append(self.name.as_str());
        out.append("', ");
        out.append(decimal(self.position as u64).as_str());
        out
    }
}

impl Default for Table<NodesTable> {
    fn default() -> (r: Table<NodesTable>)
        ensures
            laid_out(r, "dz_nodes"@, seq![("name"@, ParamType::TextUnique), ("id"@, ParamType::IntegerPrimaryKey), ("position"@, ParamType::Integer)]),
    {
        let mut t: Table<NodesTable> = Table::new("dz_nodes");
        t.add_column(&Param::new("name", ParamType::TextUnique));
        t.add_column(&Param::new("id", ParamType::IntegerPrimaryKey));
        t.add_column(&Param::new("position", ParamType::Integer));
        t
    }
}

/// The rows of the first `n` nodes, as insert statements.
pub open spec fn node_inserts(t: Table<NodesTable>, g: Graph, n: int) -> Seq<char>
    decreases n,
{
    if n <= 0 {
        Seq::empty()
    } else {
        node_inserts(t, g, n - 1) + t.insert_text(
            "'"@ + g.nodelist[n - 1] + "', "@ + decimal_text(n as nat),
        )
    }
}

impl Generate for Table<NodesTable> {
    /// The table, then one row for each node in the order of the ids.
    open spec fn script(&self, g: Graph) -> Seq<char> {
        self.sql() + node_inserts(*self, g, g.nodelist.len() as int)
    }

    fn generate(&self, dz: &DagZet) -> (r: String) {
        let mut out = self.sqlize();
        let n: usize = dz.nodelist.len();
        let mut i: usize = 0;
        assert(out@ =~= self.sql() + node_inserts(*self, dz@, 0));
        while i < n
            invariant
                dz.wf(),
                n == dz.nodelist@.len(),
                i <= n,
                out@ == self.sql() + node_inserts(*self, dz@, i as int),
            decreases n - i,
        {
            assert(dz@.nodelist[i as int] == dz.nodelist@[i as int]@);
            let row = NodesRow { name: dz.nodelist[i].clone(), position: (i + 1) as u32 };
            let ghost before = out@;
            out.append(self.sqlize_insert(&row).as_str());
            assert(out@ =~= self.sql() + node_inserts(*self, dz@, i + 1));
            i += 1;
        }
        out
    }
}

/// The table of the connections.
pub struct ConnectionsTable;

/// A connection: the names of its two ends.
pub struct ConnectionsRow {
    pub left: String,
    pub right: String,
}

impl Row<ConnectionsTable> for ConnectionsRow {
    open spec fn values(&self) -> Seq<char> {
        lookup_text(self.left@) + ", "@ + lookup_text(self.right@)
    }

    fn sqlize_values(&self) -> (r: String) {
        let mut out = name_lookup(&self.left);
        out.append(", ");
        out.append(name_lookup(&self.right).as_str());
        out
    }
}

impl Default for Table<ConnectionsTable> {
    fn default() -> (r: Table<ConnectionsTable>)
        ensures
            laid_out(r, "dz_connections"@, seq![("left"@, ParamType::IntegerNotNull), ("right"@, ParamType::IntegerNotNull)]),
    {
        let mut t: Table<ConnectionsTable> = Table::new("dz_connections");
        t.add_column(&Param::new("left", ParamType::IntegerNotNull));
        t.add_column(&Param::new("right", ParamType::IntegerNotNull));
        t
    }
}

/// The rows of the first `n` connections, as insert statements.
pub open spec fn connection_inserts(t: Table<ConnectionsTable>, g: Graph, n: int) -> Seq<char>
    decreases n,
{
    if n <= 0 {
        Seq::empty()
    } else {
        connection_inserts(t, g, n - 1) + t.insert_text(
            lookup_text(g.connections[n - 1].0) + ", "@ + lookup_text(g.connections[n - 1].1),
        )
    }
}

impl Generate for Table<ConnectionsTable> {
    /// The table, then one row for each connection in the order made.
    open spec fn script(&self, g: Graph) -> Seq<char> {
        self.sql() + connection_inserts(*self, g, g.connections.len() as int)
    }

    fn generate(&self, dz: &DagZet) -> (r: String) {
        let mut out = self.sqlize();
        let n: usize = dz.connections.len();
        let mut i: usize = 0;
        assert(out@ =~= self.sql() + connection_inserts(*self, dz@, 0));
        while i < n
            invariant
                dz.wf(),
                n == dz.connections@.len(),
                i <= n,
                out@ == self.sql() + connection_inserts(*self, dz@, i as int),
            decreases n - i,
        {
            let con = &dz.connections[i];
            assert(dz@.connections[i as int] == (con[0]@, con[1]@));
            let row = ConnectionsRow { left: con[0].clone(), right: con[1].clone() };
            out.append(self.sqlize_insert(&row).as_str());
            assert(out@ =~= self.sql() + connection_inserts(*self, dz@, i + 1));
            i += 1;
        }
        out
    }
}

/// The table of the text lines.
pub struct LinesTable;

/// The text lines of a node.
pub struct LinesRow {
    pub node: String,
    pub lines: Vec<String>,
}

impl Row<LinesTable> for LinesRow {
    open spec fn values(&self) -> Seq<char> {
        lookup_text(self.node@) + ", '"@ + json_list(texts(self.lines@)) + "'"@
    }

    fn sqlize_values(&self) -> (r: String) {
        let mut out = name_lookup(&self.node);
        out.append(", '");
        out.append(lines_to_json(&self.lines).as_str());
        out.append("'");
        out
    }
}

impl Default for Table<LinesTable> {
    fn default() -> (r: Table<LinesTable>)
        ensures
            laid_out(r, "dz_lines"@, seq![("node"@, ParamType::Integer), ("lines"@, ParamType::Text)]),
    {
        let mut t: Table<LinesTable> = Table::new("dz_lines");
        t.add_column(&Param::new("node", ParamType::Integer));
        t.add_column(&Param::new("lines", ParamType::Text));
        t
    }
}

/// The rows of text lines of the nodes with the first `n` ids, as insert
/// statements.
pub open spec fn line_inserts(t: Table<LinesTable>, g: Graph, n: int) -> Seq<char>
    decreases n,
{
    if n <= 0 {
        Seq::empty()
    } else if g.lines.contains_key(n as u32) {
        let name = g.nodelist[n - 1];
        let v = g.lines[n as u32];
        line_inserts(t, g, n - 1) + t.insert_text(lookup_text(name) + ", '"@ + json_list(v) + "'"@)
    } else {
        line_inserts(t, g, n - 1)
    }
}

impl Generate for Table<LinesTable> {
    /// The table, then one row for each node that has text lines, in the order
    /// of the ids.
    open spec fn script(&self, g: Graph) -> Seq<char> {
        self.sql() + line_inserts(*self, g, g.nodelist.len() as int)
    }

    fn generate(&self, dz: &DagZet) -> (r: String) {
        let mut out = self.sqlize();
        let n: usize = dz.nodelist.len();
        let mut i: usize = 0;
        assert(out@ =~= self.sql() + line_inserts(*self, dz@, 0));
        while i < n
            invariant
                dz.wf(),
                n == dz.nodelist@.len(),
                i <= n,
                out@ == self.sql() + line_inserts(*self, dz@, i as int),
            decreases n - i,
        {
            let id: u32 = (i + 1) as u32;
            assert(dz@.nodelist[i as int] == dz.nodelist@[i as int]@);
            match dz.lines.get(&id) {
                Some(v) => {
                    let row = LinesRow { node: dz.nodelist[i].clone(), lines: clone_lines(v) };
                    out.append(self.sqlize_insert(&row).as_str());
                },
                None => {},
            }
            assert(out@ =~= self.sql() + line_inserts(*self, dz@, i + 1));
            i += 1;
        }
        out
    }
}

/// The table of the remarks on namespaces.
pub struct GraphRemarksTable;

/// The remarks on a namespace.
pub struct GraphRemarksRow {
    pub namespace: String,
    pub remarks: Vec<String>,
}

impl Row<GraphRemarksTable> for GraphRemarksRow {
    open spec fn values(&self) -> Seq<char> {
        "'"@ + self.namespace@ + "', '"@ + json_list(texts(self.remarks@)) + "'"@
    }

    fn sqlize_values(&self) -> (r: String) {
        let mut out = "'".to_owned();
        out.append(self.namespace.as_str());
        out.append("', '");
        out.append(lines_to_json(&self.remarks).as_str());
        out.append("'");
        out
    }
}

impl Default for Table<GraphRemarksTable> {
    fn default() -> (r: Table<GraphRemarksTable>)
        ensures
            laid_out(r, "dz_graph_remarks"@, seq![("namespace"@, ParamType::Text), ("remarks"@, ParamType::Text)]),
    {
        let mut t: Table<GraphRemarksTable> = Table::new("dz_graph_remarks");
        t.add_column(&Param::new("namespace", ParamType::Text));
        t.add_column(&Param::new("remarks", ParamType::Text));
        t
    }
}

/// The rows of the first `n` namespaces with remarks, as insert statements.
pub open spec fn graph_remark_inserts(t: Table<GraphRemarksTable>, g: Graph, n: int) -> Seq<char>
    decreases n,
{
    if n <= 0 {
        Seq::empty()
    } else {
        let ns = g.remarked[n - 1];
        graph_remark_inserts(t, g, n - 1) + t.insert_text(
            "'"@ + ns + "', '"@ + json_list(g.graph_remarks[ns]) + "'"@,
        )
    }
}

impl Generate for Table<GraphRemarksTable> {
    /// The table, then one row for each namespace with remarks, in the
    /// order of their first remark.
    open spec fn script(&self, g: Graph) -> Seq<char> {
        self.sql() + graph_remark_inserts(*self, g, g.remarked.len() as int)
    }

    fn generate(&self, dz: &DagZet) -> (r: String) {
        let mut out = self.sqlize();
        let n: usize = dz.remarked.len();
        let mut i: usize = 0;
        assert(out@ =~= self.sql() + graph_remark_inserts(*self, dz@, 0));
        while i < n
            invariant
                dz.wf(),
                n == dz.remarked@.len(),
                i <= n,
                out@ == self.sql() + graph_remark_inserts(*self, dz@, i as int),
            decreases n - i,
        {
            assert(dz@.remarked[i as int] == dz.remarked@[i as int]@);
            assert(dz@.remarked.contains(dz@.remarked[i as int]));
            assert(dz@.graph_remarks.contains_key(dz@.remarked[i as int]));
            match dz.graph_remarks.get(dz.remarked[i].as_str()) {
                Some(v) => {
                    let row = GraphRemarksRow {
                        namespace: dz.remarked[i].clone(),
                        remarks: clone_lines(v),
                    };
                    out.append(self.sqlize_insert(&row).as_str());
                },
                None => {},
            }
            assert(out@ =~= self.sql() + graph_remark_inserts(*self, dz@, i + 1));
            i += 1;
        }
        out
    }
}

/// The table of the remarks on connections.
pub struct ConnectionRemarksTable;

/// The remarks on a connection.
pub struct ConnectionRemarksRow {
    pub left: String,
    pub right: String,
    pub remarks: Vec<String>,
}

impl Row<ConnectionRemarksTable> for ConnectionRemarksRow {
    open spec fn values(&self) -> Seq<char> {
        lookup_text(self.left@) + ", "@ + lookup_text(self.right@) + ", '"@ + json_list(
            texts(self.remarks@),
        ) + "'"@
    }

    fn sqlize_values(&self) -> (r: String) {
        let mut out = name_lookup(&self.left);
        out.append(", ");
        out.append(name_lookup(&self.right).as_str());
        out.append(", '");
        out.append(lines_to_json(&self.remarks).as_str());
        out.append("'");
        out
    }
}

impl Default for Table<ConnectionRemarksTable> {
    fn default() -> (r: Table<ConnectionRemarksTable>)
        ensures
            laid_out(r, "dz_connection_remarks"@, seq![("left"@, ParamType::Integer), ("right"@, ParamType::Integer), ("remarks"@, ParamType::Text)]),
    {
        let mut t: Table<ConnectionRemarksTable> = Table::new("dz_connection_remarks");
        t.add_column(&Param::new("left", ParamType::Integer));
        t.add_column(&Param::new("right", ParamType::Integer));
        t.add_column(&Param::new("remarks", ParamType::Text));
        t
    }
}

/// The rows of the remarks on the first `n` connections, as insert statements.
pub open spec fn connection_remark_inserts(t: Table<ConnectionRemarksTable>, g: Graph, n: int) -> Seq<
    char,
>
    decreases n,
{
    if n <= 0 {
        Seq::empty()
    } else if g.connection_remarks.contains_key((n - 1) as usize) {
        let c = g.connections[n - 1];
        connection_remark_inserts(t, g, n - 1) + t.insert_text(
            lookup_text(c.0) + ", "@ + lookup_text(c.1) + ", '"@ + json_list(
                g.connection_remarks[(n - 1) as usize],
            ) + "'"@,
        )
    } else {
        connection_remark_inserts(t, g, n - 1)
    }
}

impl Generate for Table<ConnectionRemarksTable> {
    /// The table, then one row for each connection with remarks, in the
    /// order of the connections.
    open spec fn script(&self, g: Graph) -> Seq<char> {
        self.sql() + connection_remark_inserts(*self, g, g.connections.len() as int)
    }

    fn generate(&self, dz: &DagZet) -> (r: String) {
        let mut out = self.sqlize();
        let n: usize = dz.connections.len();
        let mut i: usize = 0;
        assert(out@ =~= self.sql() + connection_remark_inserts(*self, dz@, 0));
        while i < n
            invariant
                dz.wf(),
                n == dz.connections@.len(),
                i <= n,
                out@ == self.sql() + connection_remark_inserts(*self, dz@, i as int),
            decreases n - i,
        {
            let con = &dz.connections[i];
            assert(dz@.connections[i as int] == (con[0]@, con[1]@));
            match dz.connection_remarks.get(&i) {
                Some(v) => {
                    let row = ConnectionRemarksRow {
                        left: con[0].clone(),
                        right: con[1].clone(),
                        remarks: clone_lines(v),
                    };
                    out.append(self.sqlize_insert(&row).as_str());
                },
                None => {},
            }
            assert(out@ =~= self.sql() + connection_remark_inserts(*self, dz@, i + 1));
            i += 1;
        }
        out
    }
}

/// The table of the remarks on nodes.
pub struct NodeRemarksTable;

/// The remarks on a node.
pub struct NodeRemarksRow {
    pub node: String,
    pub remarks: Vec<String>,
}

impl Row<NodeRemarksTable> for NodeRemarksRow {
    open spec fn values(&self) -> Seq<char> {
        lookup_text(self.node@) + ", '"@ + json_list(texts(self.remarks@)) + "'"@
    }

    fn sqlize_values(&self) -> (r: String) {
        let mut out = name_lookup(&self.node);
        out.append(", '");
        out.append(lines_to_json(&self.remarks).as_str());
        out.append("'");
        out
    }
}

impl Default for Table<NodeRemarksTable> {
    fn default() -> (r: Table<NodeRemarksTable>)
        ensures
            laid_out(r, "dz_remarks"@, seq![("node"@, ParamType::Integer), ("remarks"@, ParamType::Text)]),
    {
        let mut t: Table<NodeRemarksTable> = Table::new("dz_remarks");
        t.add_column(&Param::new("node", ParamType::Integer));
        t.add_column(&Param::new("remarks", ParamType::Text));
        t
    }
}

/// The rows of remarks of the nodes with the first `n` ids, as insert
/// statements.
pub open spec fn node_remark_inserts(t: Table<NodeRemarksTable>, g: Graph, n: int) -> Seq<char>
    decreases n,
{
    if n <= 0 {
        Seq::empty()
    } else if g.node_remarks.contains_key(n as u32) {
        let name = g.nodelist[n - 1];
        let v = g.node_remarks[n as u32];
        node_remark_inserts(t, g, n - 1) + t.insert_text(lookup_text(name) + ", '"@ + json_list(v) + "'"@)
    } else {
        node_remark_inserts(t, g, n - 1)
    }
}

impl Generate for Table<NodeRemarksTable> {
    /// The table, then one row for each node that has remarks, in the order
    /// of the ids.
    open spec fn script(&self, g: Graph) -> Seq<char> {
        self.sql() + node_remark_inserts(*self, g, g.nodelist.len() as int)
    }

    fn generate(&self, dz: &DagZet) -> (r: String) {
        let mut out = self.sqlize();
        let n: usize = dz.nodelist.len();
        let mut i: usize = 0;
        assert(out@ =~= self.sql() + node_remark_inserts(*self, dz@, 0));
        while i < n
            invariant
                dz.wf(),
                n == dz.nodelist@.len(),
                i <= n,
                out@ == self.sql() + node_remark_inserts(*self, dz@, i as int),
            decreases n - i,
        {
            let id: u32 = (i + 1) as u32;
            assert(dz@.nodelist[i as int] == dz.nodelist@[i as int]@);
            match dz.node_remarks.get(&id) {
                Some(v) => {
                    let row = NodeRemarksRow { node: dz.nodelist[i].clone(), remarks: clone_lines(v) };
                    out.append(self.sqlize_insert(&row).as_str());
                },
                None => {},
            }
            assert(out@ =~= self.sql() + node_remark_inserts(*self, dz@, i + 1));
            i += 1;
        }
        out
    }
}

/// The table of the file ranges.
pub struct FileRangesTable;

/// The file range of a node.
pub struct FileRangesRow {
    pub node: String,
    pub file_range: FileRange,
}

impl Row<FileRangesTable> for FileRangesRow {
    open spec fn values(&self) -> Seq<char> {
        lookup_text(self.node@) + ", '"@ + self.file_range.filename@ + "', "@ + signed_text(
            self.file_range.start as int,
        ) + ", "@ + signed_text(self.file_range.end as int)
    }

    fn sqlize_values(&self) -> (r: String) {
        let mut out = name_lookup(&self.node);
        out.append(", '");
        out.append(self.file_range.filename.as_str());
        out.append("', ");
        out.append(decimal_i32(self.file_range.start).as_str());
        out.append(", ");
        out.append(decimal_i32(self.file_range.end).as_str());
        out
    }
}

impl Default for Table<FileRangesTable> {
    fn default() -> (r: Table<FileRangesTable>)
        ensures
            laid_out(r, "dz_file_ranges"@, seq![("node"@, ParamType::Integer), ("filename"@, ParamType::Text), ("start"@, ParamType::Integer), ("end"@, ParamType::Integer)]),
    {
        let mut t: Table<FileRangesTable> = Table::new("dz_file_ranges");
        t.add_column(&Param::new("node", ParamType::Integer));
        t.add_column(&Param::new("filename", ParamType::Text));
        t.add_column(&Param::new("start", ParamType::Integer));
        t.add_column(&Param::new("end", ParamType::Integer));
        t
    }
}

/// The rows of a file range of the nodes with the first `n` ids, as insert
/// statements.
pub open spec fn file_range_inserts(t: Table<FileRangesTable>, g: Graph, n: int) -> Seq<char>
    decreases n,
{
    if n <= 0 {
        Seq::empty()
    } else if g.file_ranges.contains_key(n as u32) {
        let name = g.nodelist[n - 1];
        let v = g.file_ranges[n as u32];
        file_range_inserts(t, g, n - 1) + t.insert_text(lookup_text(name) + ", '"@ + v.filename + "', "@ + signed_text(v.start as int) + ", "@
                + signed_text(v.end as int))
    } else {
        file_range_inserts(t, g, n - 1)
    }
}

impl Generate for Table<FileRangesTable> {
    /// The table, then one row for each node that has a file range, in the order
    /// of the ids.
    open spec fn script(&self, g: Graph) -> Seq<char> {
        self.sql() + file_range_inserts(*self, g, g.nodelist.len() as int)
    }

    fn generate(&self, dz: &DagZet) -> (r: String) {
        let mut out = self.sqlize();
        let n: usize = dz.nodelist.len();
        let mut i: usize = 0;
        assert(out@ =~= self.sql() + file_range_inserts(*self, dz@, 0));
        while i < n
            invariant
                dz.wf(),
                n == dz.nodelist@.len(),
                i <= n,
                out@ == self.sql() + file_range_inserts(*self, dz@, i as int),
            decreases n - i,
        {
            let id: u32 = (i + 1) as u32;
            assert(dz@.nodelist[i as int] == dz.nodelist@[i as int]@);
            match dz.file_ranges.get(&id) {
                Some(v) => {
                    let row = FileRangesRow {
                        node: dz.nodelist[i].clone(),
                        file_range: FileRange {
                            filename: v.filename.clone(),
                            start: v.start,
                            end: v.end,
                        },
                    };
                    out.append(self.sqlize_insert(&row).as_str());
                },
                None => {},
            }
            assert(out@ =~= self.sql() + file_range_inserts(*self, dz@, i + 1));
            i += 1;
        }
        out
    }
}

/// The table of the hyperlinks.
pub struct HyperlinksTable;

/// The hyperlink of a node.
pub struct HyperlinksRow {
    pub node: String,
    pub hyperlink: String,
}

impl Row<HyperlinksTable> for HyperlinksRow {
    open spec fn values(&self) -> Seq<char> {
        lookup_text(self.node@) + ", '"@ + quotes_escaped(self.hyperlink@) + "'"@
    }

    fn sqlize_values(&self) -> (r: String) {
        let mut out = name_lookup(&self.node);
        out.append(", '");
        out.append(escape_quotes(self.hyperlink.as_str()).as_str());
        out.append("'");
        out
    }
}

impl Default for Table<HyperlinksTable> {
    fn default() -> (r: Table<HyperlinksTable>)
        ensures
            laid_out(r, "dz_hyperlinks"@, seq![("node"@, ParamType::Integer), ("hyperlink"@, ParamType::Text)]),
    {
        let mut t: Table<HyperlinksTable> = Table::new("dz_hyperlinks");
        t.add_column(&Param::new("node", ParamType::Integer));
        t.add_column(&Param::new("hyperlink", ParamType::Text));
        t
    }
}

/// The rows of a hyperlink of the nodes with the first `n` ids, as insert
/// statements.
pub open spec fn hyperlink_inserts(t: Table<HyperlinksTable>, g: Graph, n: int) -> Seq<char>
    decreases n,
{
    if n <= 0 {
        Seq::empty()
    } else if g.hyperlinks.contains_key(n as u32) {
        let name = g.nodelist[n - 1];
        let v = g.hyperlinks[n as u32];
        hyperlink_inserts(t, g, n - 1) + t.insert_text(lookup_text(name) + ", '"@ + quotes_escaped(v) + "'"@)
    } else {
        hyperlink_inserts(t, g, n - 1)
    }
}

impl Generate for Table<HyperlinksTable> {
    /// The table, then one row for each node that has a hyperlink, in the order
    /// of the ids.
    open spec fn script(&self, g: Graph) -> Seq<char> {
        self.sql() + hyperlink_inserts(*self, g, g.nodelist.len() as int)
    }

    fn generate(&self, dz: &DagZet) -> (r: String) {
        let mut out = self.sqlize();
        let n: usize = dz.nodelist.len();
        let mut i: usize = 0;
        assert(out@ =~= self.sql() + hyperlink_inserts(*self, dz@, 0));
        while i < n
            invariant
                dz.wf(),
                n == dz.nodelist@.len(),
                i <= n,
                out@ == self.sql() + hyperlink_inserts(*self, dz@, i as int),
            decreases n - i,
        {
            let id: u32 = (i + 1) as u32;
            assert(dz@.nodelist[i as int] == dz.nodelist@[i as int]@);
            match dz.hyperlinks.get(&id) {
                Some(v) => {
                    let row = HyperlinksRow { node: dz.nodelist[i].clone(), hyperlink: v.clone() };
                    out.append(self.sqlize_insert(&row).as_str());
                },
                None => {},
            }
            assert(out@ =~= self.sql() + hyperlink_inserts(*self, dz@, i + 1));
            i += 1;
        }
        out
    }
}

/// The table of the tasks.
pub struct TODOTable;

/// The task of a node.
pub struct TODORow {
    pub node: String,
    pub todo_item: String,
}

impl Row<TODOTable> for TODORow {
    open spec fn values(&self) -> Seq<char> {
        lookup_text(self.node@) + ", '"@ + quotes_escaped(self.todo_item@) + "'"@
    }

    fn sqlize_values(&self) -> (r: String) {
        let mut out = name_lookup(&self.node);
        out.append(", '");
        out.append(escape_quotes(self.todo_item.as_str()).as_str());
        out.append("'");
        out
    }
}

impl Default for Table<TODOTable> {
    fn default() -> (r: Table<TODOTable>)
        ensures
            laid_out(r, "dz_todo"@, seq![("node"@, ParamType::Integer), ("task"@, ParamType::Text)]),
    {
        let mut t: Table<TODOTable> = Table::new("dz_todo");
        t.add_column(&Param::new("node", ParamType::Integer));
        t.add_column(&Param::new("task", ParamType::Text));
        t
    }
}

/// The rows of a task of the nodes with the first `n` ids, as insert
/// statements.
pub open spec fn todo_inserts(t: Table<TODOTable>, g: Graph, n: int) -> Seq<char>
    decreases n,
{
    if n <= 0 {
        Seq::empty()
    } else if g.todos.contains_key(n as u32) {
        let name = g.nodelist[n - 1];
        let v = g.todos[n as u32];
        todo_inserts(t, g, n - 1) + t.insert_text(lookup_text(name) + ", '"@ + quotes_escaped(v) + "'"@)
    } else {
        todo_inserts(t, g, n - 1)
    }
}

impl Generate for Table<TODOTable> {
    /// The table, then one row for each node that has a task, in the order
    /// of the ids.
    open spec fn script(&self, g: Graph) -> Seq<char> {
        self.sql() + todo_inserts(*self, g, g.nodelist.len() as int)
    }

    fn generate(&self, dz: &DagZet) -> (r: String) {
        let mut out = self.sqlize();
        let n: usize = dz.nodelist.len();
        let mut i: usize = 0;
        assert(out@ =~= self.sql() + todo_inserts(*self, dz@, 0));
        while i < n
            invariant
                dz.wf(),
                n == dz.nodelist@.len(),
                i <= n,
                out@ == self.sql() + todo_inserts(*self, dz@, i as int),
            decreases n - i,
        {
            let id: u32 = (i + 1) as u32;
            assert(dz@.nodelist[i as int] == dz.nodelist@[i as int]@);
            match dz.todos.get(&id) {
                Some(v) => {
                    let row = TODORow { node: dz.nodelist[i].clone(), todo_item: v.clone() };
                    out.append(self.sqlize_insert(&row).as_str());
                },
                None => {},
            }
            assert(out@ =~= self.sql() + todo_inserts(*self, dz@, i + 1));
            i += 1;
        }
        out
    }
}

/// The table of the tags.
pub struct TagsTable;

/// One tag of a node.
pub struct TagsRow {
    pub node: String,
    pub tag: String,
}

impl Row<TagsTable> for TagsRow {
    open spec fn values(&self) -> Seq<char> {
        lookup_text(self.node@) + ", '"@ + self.tag@ + "'"@
    }

    fn sqlize_values(&self) -> (r: String) {
        let mut out = name_lookup(&self.node);
        out.append(", '");
        out.append(self.tag.as_str());
        out.append("'");
        out
    }
}

impl Default for Table<TagsTable> {
    fn default() -> (r: Table<TagsTable>)
        ensures
            laid_out(r, "dz_tags"@, seq![("node"@, ParamType::Integer), ("tag"@, ParamType::Text)]),
    {
        let mut t: Table<TagsTable> = Table::new("dz_tags");
        t.add_column(&Param::new("node", ParamType::Integer));
        t.add_column(&Param::new("tag", ParamType::Text));
        t
    }
}

/// The rows of the first `k` of the tags `tags` of the node `name`, as
/// insert statements.
pub open spec fn tag_rows(t: Table<TagsTable>, name: Seq<char>, tags: Lines, k: int) -> Seq<char>
    decreases k,
{
    if k <= 0 {
        Seq::empty()
    } else {
        tag_rows(t, name, tags, k - 1) + t.insert_text(
            lookup_text(name) + ", '"@ + tags[k - 1] + "'"@,
        )
    }
}

/// The rows of the tags of the nodes with the first `n` ids, as insert
/// statements.
pub open spec fn tag_inserts(t: Table<TagsTable>, g: Graph, n: int) -> Seq<char>
    decreases n,
{
    if n <= 0 {
        Seq::empty()
    } else if g.tags.contains_key(n as u32) {
        tag_inserts(t, g, n - 1) + tag_rows(
            t,
            g.nodelist[n - 1],
            g.tags[n as u32],
            g.tags[n as u32].len() as int,
        )
    } else {
        tag_inserts(t, g, n - 1)
    }
}

impl Generate for Table<TagsTable> {
    /// The table, then one row for each tag of each node, in the order of
    /// the ids and, for one node, in the order in which the tags were given.
    open spec fn script(&self, g: Graph) -> Seq<char> {
        self.sql() + tag_inserts(*self, g, g.nodelist.len() as int)
    }

    fn generate(&self, dz: &DagZet) -> (r: String) {
        let mut out = self.sqlize();
        let n: usize = dz.nodelist.len();
        let mut i: usize = 0;
        assert(out@ =~= self.sql() + tag_inserts(*self, dz@, 0));
        while i < n
            invariant
                dz.wf(),
                n == dz.nodelist@.len(),
                i <= n,
                out@ == self.sql() + tag_inserts(*self, dz@, i as int),
            decreases n - i,
        {
            let id: u32 = (i + 1) as u32;
            assert(dz@.nodelist[i as int] == dz.nodelist@[i as int]@);
            match dz.tags.get(&id) {
                Some(v) => {
                    let m: usize = v.len();
                    let mut k: usize = 0;
                    let ghost before = out@;
                    let ghost name = dz.nodelist@[i as int]@;
                    assert(out@ =~= before + tag_rows(*self, name, texts(v@), 0));
                    while k < m
                        invariant
                            m == v@.len(),
                            k <= m,
                            i < dz.nodelist@.len(),
                            name == dz.nodelist@[i as int]@,
                            out@ == before + tag_rows(*self, name, texts(v@), k as int),
                        decreases m - k,
                    {
                        assert(texts(v@)[k as int] == v@[k as int]@);
                        let row = TagsRow { node: dz.nodelist[i].clone(), tag: v[k].clone() };
                        out.append(self.sqlize_insert(&row).as_str());
                        assert(out@ =~= before + tag_rows(*self, name, texts(v@), k + 1));
                        k += 1;
                    }
                },
                None => {},
            }
            assert(out@ =~= self.sql() + tag_inserts(*self, dz@, i + 1));
            i += 1;
        }
        out
    }
}

/// The table of the flashcards.
pub struct FlashCardsTable;

/// The flashcard of a node.
pub struct FlashCardsRow {
    pub node: String,
    pub card: FlashCard,
}

impl Row<FlashCardsTable> for FlashCardsRow {
    open spec fn values(&self) -> Seq<char> {
        lookup_text(self.node@) + ", '"@ + json_list(texts(self.card.front@)) + "', '"@ + json_list(
            texts(self.card.back@),
        ) + "'"@
    }

    fn sqlize_values(&self) -> (r: String) {
        let mut out = name_lookup(&self.node);
        out.append(", '");
        out.append(lines_to_json(&self.card.front).as_str());
        out.append("', '");
        out.append(lines_to_json(&self.card.back).as_str());
        out.append("'");
        out
    }
}

impl Default for Table<FlashCardsTable> {
    fn default() -> (r: Table<FlashCardsTable>)
        ensures
            laid_out(r, "dz_flashcards"@, seq![("node"@, ParamType::Integer), ("front"@, ParamType::Text), ("back"@, ParamType::Text)]),
    {
        let mut t: Table<FlashCardsTable> = Table::new("dz_flashcards");
        t.add_column(&Param::new("node", ParamType::Integer));
        t.add_column(&Param::new("front", ParamType::Text));
        t.add_column(&Param::new("back", ParamType::Text));
        t
    }
}

/// The rows of a flashcard of the nodes with the first `n` ids, as insert
/// statements.
pub open spec fn flashcard_inserts(t: Table<FlashCardsTable>, g: Graph, n: int) -> Seq<char>
    decreases n,
{
    if n <= 0 {
        Seq::empty()
    } else if g.flashcards.contains_key(n as u32) {
        let name = g.nodelist[n - 1];
        let v = g.flashcards[n as u32];
        flashcard_inserts(t, g, n - 1) + t.insert_text(lookup_text(name) + ", '"@ + json_list(v.front) + "', '"@ + json_list(v.back) + "'"@)
    } else {
        flashcard_inserts(t, g, n - 1)
    }
}

impl Generate for Table<FlashCardsTable> {
    /// The table, then one row for each node that has a flashcard, in the order
    /// of the ids.
    open spec fn script(&self, g: Graph) -> Seq<char> {
        self.sql() + flashcard_inserts(*self, g, g.nodelist.len() as int)
    }

    fn generate(&self, dz: &DagZet) -> (r: String) {
        let mut out = self.sqlize();
        let n: usize = dz.nodelist.len();
        let mut i: usize = 0;
        assert(out@ =~= self.sql() + flashcard_inserts(*self, dz@, 0));
        while i < n
            invariant
                dz.wf(),
                n == dz.nodelist@.len(),
                i <= n,
                out@ == self.sql() + flashcard_inserts(*self, dz@, i as int),
            decreases n - i,
        {
            let id: u32 = (i + 1) as u32;
            assert(dz@.nodelist[i as int] == dz.nodelist@[i as int]@);
            match dz.flashcards.get(&id) {
                Some(v) => {
                    let row = FlashCardsRow {
                        node: dz.nodelist[i].clone(),
                        card: FlashCard { front: clone_lines(&v.front), back: clone_lines(&v.back) },
                    };
                    out.append(self.sqlize_insert(&row).as_str());
                },
                None => {},
            }
            assert(out@ =~= self.sql() + flashcard_inserts(*self, dz@, i + 1));
            i += 1;
        }
        out
    }
}

/// The table of the images.
pub struct ImagesTable;

/// The image file of a node.
pub struct ImagesRow {
    pub node: String,
    pub filename: String,
}

impl Row<ImagesTable> for ImagesRow {
    open spec fn values(&self) -> Seq<char> {
        lookup_text(self.node@) + ", '"@ + self.filename@ + "'"@
    }

    fn sqlize_values(&self) -> (r: String) {
        let mut out = name_lookup(&self.node);
        out.append(", '");
        out.append(self.filename.as_str());
        out.append("'");
        out
    }
}

impl Default for Table<ImagesTable> {
    fn default() -> (r: Table<ImagesTable>)
        ensures
            laid_out(r, "dz_images"@, seq![("node"@, ParamType::Integer), ("image"@, ParamType::Text)]),
    {
        let mut t: Table<ImagesTable> = Table::new("dz_images");
        t.add_column(&Param::new("node", ParamType::Integer));
        t.add_column(&Param::new("image", ParamType::Text));
        t
    }
}

/// The rows of an image of the nodes with the first `n` ids, as insert
/// statements.
pub open spec fn image_inserts(t: Table<ImagesTable>, g: Graph, n: int) -> Seq<char>
    decreases n,
{
    if n <= 0 {
        Seq::empty()
    } else if g.images.contains_key(n as u32) {
        let name = g.nodelist[n - 1];
        let v = g.images[n as u32];
        image_inserts(t, g, n - 1) + t.insert_text(lookup_text(name) + ", '"@ + v + "'"@)
    } else {
        image_inserts(t, g, n - 1)
    }
}

impl Generate for Table<ImagesTable> {
    /// The table, then one row for each node that has an image, in the order
    /// of the ids.
    open spec fn script(&self, g: Graph) -> Seq<char> {
        self.sql() + image_inserts(*self, g, g.nodelist.len() as int)
    }

    fn generate(&self, dz: &DagZet) -> (r: String) {
        let mut out = self.sqlize();
        let n: usize = dz.nodelist.len();
        let mut i: usize = 0;
        assert(out@ =~= self.sql() + image_inserts(*self, dz@, 0));
        while i < n
            invariant
                dz.wf(),
                n == dz.nodelist@.len(),
                i <= n,
                out@ == self.sql() + image_inserts(*self, dz@, i as int),
            decreases n - i,
        {
            let id: u32 = (i + 1) as u32;
            assert(dz@.nodelist[i as int] == dz.nodelist@[i as int]@);
            match dz.images.get(&id) {
                Some(v) => {
                    let row = ImagesRow { node: dz.nodelist[i].clone(), filename: v.clone() };
                    out.append(self.sqlize_insert(&row).as_str());
                },
                None => {},
            }
            assert(out@ =~= self.sql() + image_inserts(*self, dz@, i + 1));
            i += 1;
        }
        out
    }
}

/// The table of the audio files.
pub struct AudioTable;

/// The audio file of a node.
pub struct AudioRow {
    pub node: String,
    pub filename: String,
}

impl Row<AudioTable> for AudioRow {
    open spec fn values(&self) -> Seq<char> {
        lookup_text(self.node@) + ", '"@ + self.filename@ + "'"@
    }

    fn sqlize_values(&self) -> (r: String) {
        let mut out = name_lookup(&self.node);
        out.append(", '");
        out.append(self.filename.as_str());
        out.append("'");
        out
    }
}

impl Default for Table<AudioTable> {
    fn default() -> (r: Table<AudioTable>)
        ensures
            laid_out(r, "dz_audio"@, seq![("node"@, ParamType::Integer), ("audio"@, ParamType::Text)]),
    {
        let mut t: Table<AudioTable> = Table::new("dz_audio");
        t.add_column(&Param::new("node", ParamType::Integer));
        t.add_column(&Param::new("audio", ParamType::Text));
        t
    }
}

/// The rows of an audio file of the nodes with the first `n` ids, as insert
/// statements.
pub open spec fn audio_inserts(t: Table<AudioTable>, g: Graph, n: int) -> Seq<char>
    decreases n,
{
    if n <= 0 {
        Seq::empty()
    } else if g.audio.contains_key(n as u32) {
        let name = g.nodelist[n - 1];
        let v = g.audio[n as u32];
        audio_inserts(t, g, n - 1) + t.insert_text(lookup_text(name) + ", '"@ + v + "'"@)
    } else {
        audio_inserts(t, g, n - 1)
    }
}

impl Generate for Table<AudioTable> {
    /// The table, then one row for each node that has an audio file, in the order
    /// of the ids.
    open spec fn script(&self, g: Graph) -> Seq<char> {
        self.sql() + audio_inserts(*self, g, g.nodelist.len() as int)
    }

    fn generate(&self, dz: &DagZet) -> (r: String) {
        let mut out = self.sqlize();
        let n: usize = dz.nodelist.len();
        let mut i: usize = 0;
        assert(out@ =~= self.sql() + audio_inserts(*self, dz@, 0));
        while i < n
            invariant
                dz.wf(),
                n == dz.nodelist@.len(),
                i <= n,
                out@ == self.sql() + audio_inserts(*self, dz@, i as int),
            decreases n - i,
        {
            let id: u32 = (i + 1) as u32;
            assert(dz@.nodelist[i as int] == dz.nodelist@[i as int]@);
            match dz.audio.get(&id) {
                Some(v) => {
                    let row = AudioRow { node: dz.nodelist[i].clone(), filename: v.clone() };
                    out.append(self.sqlize_insert(&row).as_str());
                },
                None => {},
            }
            assert(out@ =~= self.sql() + audio_inserts(*self, dz@, i + 1));
            i += 1;
        }
        out
    }
}

/// The table of the places where the nodes were declared.
pub struct NodeRefsTable;

/// The file and line where a node was declared.
pub struct NodeRefsRow {
    pub node: String,
    pub filename: String,
    pub linum: u32,
}

impl Row<NodeRefsTable> for NodeRefsRow {
    open spec fn values(&self) -> Seq<char> {
        lookup_text(self.node@) + ", '"@ + self.filename@ + "', "@ + decimal_text(self.linum as nat)
    }

    fn sqlize_values(&self) -> (r: String) {
        let mut out = name_lookup(&self.node);
        out.append(", '");
        out.append(self.filename.as_str());
        out.append("', ");
        out.append(decimal(self.linum as u64).as_str());
        out
    }
}

impl Default for Table<NodeRefsTable> {
    fn default() -> (r: Table<NodeRefsTable>)
        ensures
            laid_out(r, "dz_noderefs"@, seq![("node"@, ParamType::Integer), ("filename"@, ParamType::Text), ("linum"@, ParamType::Integer)]),
    {
        let mut t: Table<NodeRefsTable> = Table::new("dz_noderefs");
        t.add_column(&Param::new("node", ParamType::Integer));
        t.add_column(&Param::new("filename", ParamType::Text));
        t.add_column(&Param::new("linum", ParamType::Integer));
        t
    }
}

/// The rows of the nodes with the first `n` ids that lie from `start` up to
/// but not including `end` and whose line is known, as insert statements.
pub open spec fn noderef_inserts(
    t: Table<NodeRefsTable>,
    g: Graph,
    lines: Map<u32, u32>,
    filename: Seq<char>,
    start: usize,
    end: usize,
    n: int,
) -> Seq<char>
    decreases n,
{
    if n <= 0 {
        Seq::empty()
    } else if start <= n && n < end && lines.contains_key(n as u32) {
        noderef_inserts(t, g, lines, filename, start, end, n - 1) + t.insert_text(
            lookup_text(g.nodelist[n - 1]) + ", '"@ + filename + "', "@ + decimal_text(
                lines[n as u32] as nat,
            ),
        )
    } else {
        noderef_inserts(t, g, lines, filename, start, end, n - 1)
    }
}

impl Generate for Table<NodeRefsTable> {
    /// The table alone: which lines the nodes came from is not part of the
    /// graph.
    open spec fn script(&self, g: Graph) -> Seq<char> {
        self.sql()
    }

    fn generate(&self, dz: &DagZet) -> (r: String) {
        self.sqlize()
    }
}

impl Table<NodeRefsTable> {
    /// The table, then one row for each node whose id lies from `start` up
    /// to but not including `end` and whose line `lines` knows, in the order
    /// of the ids. The rows name the file `filename`, or no file.
    pub fn generate_with_filename(
        &self,
        dz: &DagZet,
        lines: &HashMap<u32, u32>,
        filename: Option<&String>,
        start: usize,
        end: usize,
    ) -> (r: String)
        requires
            dz.wf(),
        ensures
            r@ == self.sql() + noderef_inserts(
                *self,
                dz@,
                lines@,
                match filename {
                    Some(f) => f@,
                    None => Seq::empty(),
                },
                start,
                end,
                dz@.nodelist.len() as int,
            ),
    {
        let mut out = self.sqlize();
        let name: String = match filename {
            Some(f) => f.clone(),
            None => String::new(),
        };
        let n: usize = dz.nodelist.len();
        let mut i: usize = 0;
        assert(out@ =~= self.sql() + noderef_inserts(*self, dz@, lines@, name@, start, end, 0));
        while i < n
            invariant
                dz.wf(),
                n == dz.nodelist@.len(),
                i <= n,
                out@ == self.sql() + noderef_inserts(
                    *self,
                    dz@,
                    lines@,
                    name@,
                    start,
                    end,
                    i as int,
                ),
            decreases n - i,
        {
            let id: u32 = (i + 1) as u32;
            assert(dz@.nodelist[i as int] == dz.nodelist@[i as int]@);
            if start <= i + 1 && i + 1 < end {
                match lines.get(&id) {
                    Some(linum) => {
                        let row = NodeRefsRow {
                            node: dz.nodelist[i].clone(),
                            filename: name.clone(),
                            linum: *linum,
                        };
                        out.append(self.sqlize_insert(&row).as_str());
                    },
                    None => {},
                }
            }
            assert(out@ =~= self.sql() + noderef_inserts(
                *self,
                dz@,
                lines@,
                name@,
                start,
                end,
                i + 1,
            ));
            i += 1;
        }
        out
    }
}

} // verus!
