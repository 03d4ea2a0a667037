//! The graph builder: it takes the directives one line at a time and keeps
//! the graph that they describe.

use crate::model::{
    appended, card_at, distinct, is_alias, lines_at, obeys, opcode_of, Card, Graph, Lines,
    Opcode, ReturnCode, Span,
};
use crate::resolve::{needs_current, resolve_connect, resolve_cross};
use crate::text::{
    contains_dotdot, is_char, parse_i32, qualified, qualify, split_whitespace, texts, tokens,
};
use std::collections::HashMap;
use vstd::hash_map::StringHashMap;
use vstd::hash_set::StringHashSet;
use vstd::prelude::*;

verus! {

broadcast use vstd::std_specs::hash::group_hash_axioms;

/// A range of lines of a file. A bound of -1 is absent.
pub struct FileRange {
    pub filename: String,
    pub start: i32,
    pub end: i32,
}

impl View for FileRange {
    type V = Span;

    open spec fn view(&self) -> Span {
        Span { filename: self.filename@, start: self.start, end: self.end }
    }
}

/// The two faces of a flashcard, line by line.
pub struct FlashCard {
    pub front: Vec<String>,
    pub back: Vec<String>,
}

impl View for FlashCard {
    type V = Card;

    open spec fn view(&self) -> Card {
        Card { front: texts(self.front@), back: texts(self.back@) }
    }
}

impl Default for FlashCard {
    fn default() -> (r: FlashCard)
        ensures
            r@ == (Card { front: Seq::empty(), back: Seq::empty() }),
    {
        let r = FlashCard { front: Vec::new(), back: Vec::new() };
        assert(r@.front =~= Seq::empty());
        assert(r@.back =~= Seq::empty());
        r
    }
}

/// The lists of a map of line lists, as sequences of texts.
pub open spec fn lines_of<K>(m: Map<K, Vec<String>>) -> Map<K, Lines> {
    Map::new(|k: K| m.contains_key(k), |k: K| texts(m[k]@))
}

/// The strings of a map, as texts.
pub open spec fn texts_of<K>(m: Map<K, String>) -> Map<K, Seq<char>> {
    Map::new(|k: K| m.contains_key(k), |k: K| m[k]@)
}

/// The file ranges of a map, as spans.
pub open spec fn spans_of(m: Map<u32, FileRange>) -> Map<u32, Span> {
    Map::new(|k: u32| m.contains_key(k), |k: u32| m[k]@)
}

/// The flashcards of a map, as cards.
pub open spec fn cards_of(m: Map<u32, FlashCard>) -> Map<u32, Card> {
    Map::new(|k: u32| m.contains_key(k), |k: u32| m[k]@)
}

/// The connections of a list, as pairs of texts.
pub open spec fn pairs_of(v: Seq<[String; 2]>) -> Seq<(Seq<char>, Seq<char>)> {
    Seq::new(v.len(), |i: int| (v[i]@[0]@, v[i]@[1]@))
}

/// The graph builder.
pub struct DagZet {
    /// The current namespace.
    pub namespace: Option<String>,
    /// The remarks on each namespace.
    pub graph_remarks: StringHashMap<Vec<String>>,
    /// The namespaces that have remarks, in the order of their first remark.
    pub remarked: Vec<String>,
    /// The id of the current node.
    pub curnode: Option<u32>,
    /// The id of each node, by its qualified name.
    pub nodes: StringHashMap<u32>,
    /// The qualified name of each node: the node with id `i + 1` is at `i`.
    pub nodelist: Vec<String>,
    /// The text lines of each node.
    pub lines: HashMap<u32, Vec<String>>,
    /// The connections as pairs of qualified names, which need not name a
    /// node yet.
    pub connections: Vec<[String; 2]>,
    /// The remarks on each connection, by its index.
    pub connection_remarks: HashMap<usize, Vec<String>>,
    /// The remarks on each node.
    pub node_remarks: HashMap<u32, Vec<String>>,
    /// The file range of each node.
    pub file_ranges: HashMap<u32, FileRange>,
    /// The file name that a file range used last.
    pub last_filename: Option<String>,
    /// The hyperlink of each node.
    pub hyperlinks: HashMap<u32, String>,
    /// The task of each node.
    pub todos: HashMap<u32, String>,
    /// The tags of each node, each once, in the order given.
    pub tags: HashMap<u32, Vec<String>>,
    /// The names that cross connections have used.
    pub xnodes: StringHashSet,
    /// The flashcard of each node.
    pub flashcards: HashMap<u32, FlashCard>,
    /// The image file of each node.
    pub images: HashMap<u32, String>,
    /// The audio file of each node.
    pub audio: HashMap<u32, String>,
}

/// The text of an optional string.
pub open spec fn text_of(s: Option<String>) -> Option<Seq<char>> {
    match s {
        Some(s) => Some(s@),
        None => None,
    }
}

impl View for DagZet {
    type V = Graph;

    open spec fn view(&self) -> Graph {
        Graph {
            namespace: text_of(self.namespace),
            graph_remarks: lines_of(self.graph_remarks@),
            remarked: texts(self.remarked@),
            curnode: self.curnode,
            nodelist: texts(self.nodelist@),
            lines: lines_of(self.lines@),
            connections: pairs_of(self.connections@),
            connection_remarks: lines_of(self.connection_remarks@),
            node_remarks: lines_of(self.node_remarks@),
            file_ranges: spans_of(self.file_ranges@),
            last_filename: text_of(self.last_filename),
            hyperlinks: texts_of(self.hyperlinks@),
            todos: texts_of(self.todos@),
            tags: lines_of(self.tags@),
            xnodes: self.xnodes@,
            flashcards: cards_of(self.flashcards@),
            images: texts_of(self.images@),
            audio: texts_of(self.audio@),
        }
    }
}

impl DagZet {
    /// The invariant of the builder: its graph is well formed, and the table
    /// of ids holds exactly the names of the node list, each with its index
    /// plus one.
    pub open spec fn wf(&self) -> bool {
        &&& self@.wf()
        &&& forall|name: Seq<char>| #[trigger]
            self.nodes@.contains_key(name) <==> self@.nodelist.contains(name)
        &&& forall|i: int|
            0 <= i < self@.nodelist.len() ==> self.nodes@[#[trigger] self@.nodelist[i]] == i + 1
    }

    /// A builder with an empty graph.
    pub fn new() -> (r: DagZet)
        ensures
            r.wf(),
            r@ == Graph::empty(),
    {
        let r = DagZet {
            namespace: None,
            graph_remarks: StringHashMap::new(),
            remarked: Vec::new(),
            curnode: None,
            nodes: StringHashMap::new(),
            nodelist: Vec::new(),
            lines: HashMap::new(),
            connections: Vec::new(),
            connection_remarks: HashMap::new(),
            node_remarks: HashMap::new(),
            file_ranges: HashMap::new(),
            last_filename: None,
            hyperlinks: HashMap::new(),
            todos: HashMap::new(),
            tags: HashMap::new(),
            xnodes: StringHashSet::new(),
            flashcards: HashMap::new(),
            images: HashMap::new(),
            audio: HashMap::new(),
        };
        assert(r@ =~= Graph::empty());
        r
    }
}

/// Adds `line` at the end of the list under `k`, which it starts if there is
/// none.
pub fn push_line<K: Eq + std::hash::Hash + Copy>(
    m: &mut HashMap<K, Vec<String>>,
    k: K,
    line: String,
)
    requires
        vstd::std_specs::hash::obeys_key_model::<K>(),
    ensures
        lines_of(final(m)@) == appended(lines_of(old(m)@), k, line@),
{
    let had = m.remove(&k);
    assert(m@ == old(m)@.remove(k));
    let mut v = match had {
        Some(v) => v,
        None => Vec::new(),
    };
    let ghost before = texts(v@);
    assert(before =~= crate::model::lines_at(lines_of(old(m)@), k));
    v.push(line);
    assert(texts(v@) =~= before.push(line@));
    m.insert(k, v);
    assert(m@ == old(m)@.remove(k).insert(k, v));
    assert(lines_of(m@) =~= appended(lines_of(old(m)@), k, line@));
}

impl DagZet {
    /// The directive `ns`.
    fn set_namespace(&mut self, arg: &str) -> (r: Result<ReturnCode, ReturnCode>)
        requires
            old(self).wf(),
        ensures
            final(self).wf(),
            obeys(old(self)@, final(self)@, r, old(self)@.set_namespace(arg@)),
    {
        self.namespace = Some(arg.to_owned());
        assert(self@ =~= old(self)@.set_namespace(arg@).unwrap());
        Ok(ReturnCode::Okay)
    }

    /// The directive `ln`.
    fn add_line(&mut self, arg: &str) -> (r: Result<ReturnCode, ReturnCode>)
        requires
            old(self).wf(),
        ensures
            final(self).wf(),
            obeys(old(self)@, final(self)@, r, old(self)@.line(arg@)),
    {
        let id = match self.curnode {
            Some(id) => id,
            None => { return Err(ReturnCode::NodeNotSelected); },
        };
        push_line(&mut self.lines, id, arg.to_owned());
        assert(self@ =~= old(self)@.line(arg@).unwrap());
        Ok(ReturnCode::Okay)
    }

    /// The directive `rm`.
    fn add_node_remark(&mut self, arg: &str) -> (r: Result<ReturnCode, ReturnCode>)
        requires
            old(self).wf(),
        ensures
            final(self).wf(),
            obeys(old(self)@, final(self)@, r, old(self)@.node_remark(arg@)),
    {
        let id = match self.curnode {
            Some(id) => id,
            None => { return Err(ReturnCode::NodeNotSelected); },
        };
        push_line(&mut self.node_remarks, id, arg.to_owned());
        assert(self@ =~= old(self)@.node_remark(arg@).unwrap());
        Ok(ReturnCode::Okay)
    }

    /// The directive `cr`.
    fn add_connect_remark(&mut self, arg: &str) -> (r: Result<ReturnCode, ReturnCode>)
        requires
            old(self).wf(),
        ensures
            final(self).wf(),
            obeys(old(self)@, final(self)@, r, old(self)@.connect_remark(arg@)),
    {
        if self.connections.len() == 0 {
            return Err(ReturnCode::NoConnections);
        }
        let cid: usize = self.connections.len() - 1;
        push_line(&mut self.connection_remarks, cid, arg.to_owned());
        assert(self@ =~= old(self)@.connect_remark(arg@).unwrap());
        Ok(ReturnCode::Okay)
    }

    /// The directive `td`.
    fn set_todo(&mut self, arg: &str) -> (r: Result<ReturnCode, ReturnCode>)
        requires
            old(self).wf(),
        ensures
            final(self).wf(),
            obeys(old(self)@, final(self)@, r, old(self)@.todo(arg@)),
    {
        let id = match self.curnode {
            Some(id) => id,
            None => { return Err(ReturnCode::NodeNotSelected); },
        };
        self.todos.insert(id, arg.to_owned());
        assert(self@ =~= old(self)@.todo(arg@).unwrap());
        Ok(ReturnCode::Okay)
    }

    /// The directive `im`.
    fn set_image(&mut self, arg: &str) -> (r: Result<ReturnCode, ReturnCode>)
        requires
            old(self).wf(),
        ensures
            final(self).wf(),
            obeys(old(self)@, final(self)@, r, old(self)@.image(arg@)),
    {
        let id = match self.curnode {
            Some(id) => id,
            None => { return Err(ReturnCode::NodeNotSelected); },
        };
        self.images.insert(id, arg.to_owned());
        assert(self@ =~= old(self)@.image(arg@).unwrap());
        Ok(ReturnCode::Okay)
    }

    /// The directive `au`.
    fn set_audio(&mut self, arg: &str) -> (r: Result<ReturnCode, ReturnCode>)
        requires
            old(self).wf(),
        ensures
            final(self).wf(),
            obeys(old(self)@, final(self)@, r, old(self)@.sound(arg@)),
    {
        let id = match self.curnode {
            Some(id) => id,
            None => { return Err(ReturnCode::NodeNotSelected); },
        };
        self.audio.insert(id, arg.to_owned());
        assert(self@ =~= old(self)@.sound(arg@).unwrap());
        Ok(ReturnCode::Okay)
    }
}

/// A copy of a list of lines.
pub fn clone_lines(v: &Vec<String>) -> (r: Vec<String>)
    ensures
        texts(r@) == texts(v@),
{
    let mut out: Vec<String> = Vec::new();
    let n: usize = v.len();
    let mut i: usize = 0;
    while i < n
        invariant
            n == v@.len(),
            i <= n,
            texts(out@) == texts(v@).subrange(0, i as int),
        decreases n - i,
    {
        let ghost before = texts(out@);
        out.push(v[i].clone());
        assert(texts(out@) =~= before.push(v@[i as int]@));
        assert(texts(v@)[i as int] == v@[i as int]@);
        i += 1;
        assert(texts(out@) =~= texts(v@).subrange(0, i as int));
    }
    assert(texts(v@).subrange(0, n as int) =~= texts(v@));
    out
}

/// Whether `s` is one of `v`.
pub fn contains_text(v: &Vec<String>, s: &String) -> (r: bool)
    ensures
        r == texts(v@).contains(s@),
{
    let n: usize = v.len();
    let mut i: usize = 0;
    while i < n
        invariant
            n == v@.len(),
            i <= n,
            forall|j: int| 0 <= j < i ==> texts(v@)[j] != s@,
        decreases n - i,
    {
        if v[i] == *s {
            assert(texts(v@)[i as int] == s@);
            return true;
        }
        i += 1;
    }
    false
}

/// Whether a token is written as an alias.
fn token_is_alias(token: &str) -> (r: bool)
    ensures
        r == is_alias(token@),
{
    token.unicode_len() > 0 && token.get_char(0) == '@'
}

/// Whether a side of a connection needs the current node.
fn token_needs_current(token: &str) -> (r: bool)
    ensures
        r == needs_current(token@),
{
    is_char(token, '$') || contains_dotdot(token)
}

impl DagZet {
    /// Whether the connection from `left` to `right` has been made.
    pub fn already_connected(&self, left: &String, right: &String) -> (r: bool)
        ensures
            r == self@.connected(left@, right@),
    {
        let n: usize = self.connections.len();
        let mut i: usize = 0;
        while i < n
            invariant
                n == self.connections@.len(),
                i <= n,
                forall|j: int| 0 <= j < i ==> self@.connections[j] != (left@, right@),
            decreases n - i,
        {
            let con = &self.connections[i];
            if con[0] == *left && con[1] == *right {
                assert(self@.connections[i as int] == (left@, right@));
                return true;
            }
            i += 1;
        }
        false
    }

    /// The qualified name of the current node.
    fn current_name(&self) -> (r: Option<String>)
        requires
            self.wf(),
        ensures
            r.is_some() == self.curnode.is_some(),
            r matches Some(s) ==> s@ == self@.current_path(),
    {
        match self.curnode {
            Some(id) => {
                let s = self.nodelist[(id - 1) as usize].clone();
                assert(texts(self.nodelist@)[id - 1] == s@);
                Some(s)
            },
            None => None,
        }
    }

    /// The directive `gr`.
    fn add_graph_remark(&mut self, arg: &str) -> (r: Result<ReturnCode, ReturnCode>)
        requires
            old(self).wf(),
        ensures
            final(self).wf(),
            obeys(old(self)@, final(self)@, r, old(self)@.graph_remark(arg@)),
    {
        let ns: String = match &self.namespace {
            Some(n) => n.clone(),
            None => { return Err(ReturnCode::NameSpaceNotSet); },
        };
        let (mut v, fresh) = match self.graph_remarks.get(ns.as_str()) {
            Some(v) => (clone_lines(v), false),
            None => (Vec::new(), true),
        };
        let ghost before = texts(v@);
        assert(fresh == !old(self)@.graph_remarks.contains_key(ns@));
        assert(before =~= lines_at(old(self)@.graph_remarks, ns@));
        v.push(arg.to_owned());
        assert(texts(v@) =~= before.push(arg@));
        if fresh {
            self.remarked.push(ns.clone());
            assert(texts(self.remarked@) =~= texts(old(self).remarked@).push(ns@));
        }
        self.graph_remarks.insert(ns, v);
        proof {
            let want = old(self)@.graph_remark(arg@).unwrap();
            assert(self@.graph_remarks =~= want.graph_remarks);
            assert(self@ =~= want);
            crate::model::lemma_graph_remark_wf(old(self)@, arg@);
        }
        Ok(ReturnCode::Okay)
    }

    /// The directive `nn`.
    fn new_node(&mut self, arg: &str) -> (r: Result<ReturnCode, ReturnCode>)
        requires
            old(self).wf(),
        ensures
            final(self).wf(),
            obeys(old(self)@, final(self)@, r, old(self)@.new_node(arg@)),
    {
        let name: String = match &self.namespace {
            Some(n) => qualify(n.as_str(), arg),
            None => { return Err(ReturnCode::NameSpaceNotSet); },
        };
        if self.nodes.contains_key(name.as_str()) {
            return Err(ReturnCode::NodeAlreadyExists);
        }
        let n: usize = self.nodelist.len();
        if n >= 0xffff_ffff {
            return Err(ReturnCode::Error);
        }
        let id: u32 = (n + 1) as u32;
        self.nodelist.push(name.clone());
        self.nodes.insert(name, id);
        self.curnode = Some(id);
        proof {
            let want = old(self)@.new_node(arg@).unwrap();
            assert(self@.nodelist =~= want.nodelist);
            assert(self@ =~= want);
            crate::model::lemma_new_node_wf(old(self)@, arg@);
            assert forall|other: Seq<char>| #[trigger]
                self.nodes@.contains_key(other) <==> self@.nodelist.contains(other) by {
                if other == name@ {
                    assert(self@.nodelist[n as int] == other);
                } else if self@.nodelist.contains(other) {
                    let i = self@.nodelist.index_of(other);
                    assert(old(self)@.nodelist[i] == other);
                } else if old(self)@.nodelist.contains(other) {
                    let i = old(self)@.nodelist.index_of(other);
                    assert(self@.nodelist[i] == other);
                }
            }
            assert forall|i: int| 0 <= i < self@.nodelist.len() implies self.nodes@[#[trigger] self@.nodelist[i]]
                == i + 1 by {
                if i < n {
                    assert(self@.nodelist[i] == old(self)@.nodelist[i]);
                    assert(old(self)@.nodelist.contains(self@.nodelist[i]));
                }
            }
        }
        Ok(ReturnCode::Okay)
    }

    /// The directive `sn`.
    fn select_node(&mut self, arg: &str) -> (r: Result<ReturnCode, ReturnCode>)
        requires
            old(self).wf(),
        ensures
            final(self).wf(),
            obeys(old(self)@, final(self)@, r, old(self)@.select_node(arg@)),
    {
        let t = split_whitespace(arg);
        if self.namespace.is_none() {
            return Err(ReturnCode::NameSpaceNotSet);
        }
        if t.len() == 0 {
            return Err(ReturnCode::Error);
        }
        assert(texts(t@)[0] == t@[0]@);
        let name: String = match &self.namespace {
            Some(n) => qualify(n.as_str(), t[0].as_str()),
            None => { return Err(ReturnCode::NameSpaceNotSet); },
        };
        let id: u32 = match self.nodes.get(name.as_str()) {
            Some(id) => *id,
            None => { return Err(ReturnCode::Error); },
        };
        proof {
            let i = self@.nodelist.index_of(name@);
            assert(self@.nodelist[i] == name@);
        }
        self.curnode = Some(id);
        assert(self@ =~= old(self)@.select_node(arg@).unwrap());
        Ok(ReturnCode::Okay)
    }

    /// The directive `hl`.
    fn set_hyperlink(&mut self, arg: &str) -> (r: Result<ReturnCode, ReturnCode>)
        requires
            old(self).wf(),
        ensures
            final(self).wf(),
            obeys(old(self)@, final(self)@, r, old(self)@.hyperlink(arg@)),
    {
        let t = split_whitespace(arg);
        if t.len() == 0 {
            return Err(ReturnCode::NotEnoughArgs);
        }
        assert(texts(t@)[0] == t@[0]@);
        let id = match self.curnode {
            Some(id) => id,
            None => { return Err(ReturnCode::NodeNotSelected); },
        };
        self.hyperlinks.insert(id, t[0].clone());
        assert(self@ =~= old(self)@.hyperlink(arg@).unwrap());
        Ok(ReturnCode::Okay)
    }

    /// The directive `ff`.
    fn add_flash_front(&mut self, arg: &str) -> (r: Result<ReturnCode, ReturnCode>)
        requires
            old(self).wf(),
        ensures
            final(self).wf(),
            obeys(old(self)@, final(self)@, r, old(self)@.flash_front(arg@)),
    {
        let id = match self.curnode {
            Some(id) => id,
            None => { return Err(ReturnCode::NodeNotSelected); },
        };
        let had = self.flashcards.remove(&id);
        let mut card = match had {
            Some(c) => c,
            None => FlashCard::default(),
        };
        let ghost before = card@;
        assert(before == card_at(old(self)@.flashcards, id));
        card.front.push(arg.to_owned());
        assert(card@.front =~= before.front.push(arg@));
        self.flashcards.insert(id, card);
        assert(self@ =~= old(self)@.flash_front(arg@).unwrap());
        Ok(ReturnCode::Okay)
    }

    /// The directive `fb`.
    fn add_flash_back(&mut self, arg: &str) -> (r: Result<ReturnCode, ReturnCode>)
        requires
            old(self).wf(),
        ensures
            final(self).wf(),
            obeys(old(self)@, final(self)@, r, old(self)@.flash_back(arg@)),
    {
        let id = match self.curnode {
            Some(id) => id,
            None => { return Err(ReturnCode::NodeNotSelected); },
        };
        let had = self.flashcards.remove(&id);
        let mut card = match had {
            Some(c) => c,
            None => FlashCard::default(),
        };
        let ghost before = card@;
        assert(before == card_at(old(self)@.flashcards, id));
        card.back.push(arg.to_owned());
        assert(card@.back =~= before.back.push(arg@));
        self.flashcards.insert(id, card);
        assert(self@ =~= old(self)@.flash_back(arg@).unwrap());
        Ok(ReturnCode::Okay)
    }
}

/// The directive that two letters name.
pub fn parse_opcode(a: char, b: char) -> (r: Option<Opcode>)
    ensures
        r == opcode_of(a, b),
{
    if a == 'n' && b == 's' {
        Some(Opcode::Namespace)
    } else if a == 'g' && b == 'r' {
        Some(Opcode::GraphRemark)
    } else if a == 'n' && b == 'n' {
        Some(Opcode::NewNode)
    } else if a == 'l' && b == 'n' {
        Some(Opcode::Line)
    } else if a == 'c' && b == 'o' {
        Some(Opcode::Connect)
    } else if a == 'c' && b == 'r' {
        Some(Opcode::ConnectRemark)
    } else if a == 'z' && b == 'z' {
        Some(Opcode::Comment)
    } else if a == 'r' && b == 'm' {
        Some(Opcode::NodeRemark)
    } else if a == 'f' && b == 'r' {
        Some(Opcode::FileRange)
    } else if a == 'h' && b == 'l' {
        Some(Opcode::Hyperlink)
    } else if a == 't' && b == 'd' {
        Some(Opcode::Todo)
    } else if a == 't' && b == 'g' {
        Some(Opcode::Tag)
    } else if a == 's' && b == 'n' {
        Some(Opcode::SelectNode)
    } else if a == 'c' && b == 'x' {
        Some(Opcode::CrossConnect)
    } else if a == 'f' && b == 'f' {
        Some(Opcode::FlashFront)
    } else if a == 'f' && b == 'b' {
        Some(Opcode::FlashBack)
    } else if a == 'i' && b == 'm' {
        Some(Opcode::Image)
    } else if a == 'a' && b == 'u' {
        Some(Opcode::Audio)
    } else {
        None
    }
}

impl DagZet {
    /// The directive `tg`.
    fn add_tags(&mut self, arg: &str) -> (r: Result<ReturnCode, ReturnCode>)
        requires
            old(self).wf(),
        ensures
            final(self).wf(),
            obeys(old(self)@, final(self)@, r, old(self)@.tag(arg@)),
    {
        let id = match self.curnode {
            Some(id) => id,
            None => { return Err(ReturnCode::NodeNotSelected); },
        };
        let t = split_whitespace(arg);
        let mut all: Vec<String> = match self.tags.get(&id) {
            Some(v) => clone_lines(v),
            None => Vec::new(),
        };
        let ghost base = texts(all@);
        let ghost full = base + tokens(arg@);
        assert(base =~= lines_at(old(self)@.tags, id));
        let n: usize = t.len();
        let mut i: usize = 0;
        while i < n
            invariant
                n == t@.len(),
                i <= n,
                *self == *old(self),
                self.wf(),
                self.curnode == Some(id),
                base == lines_at(self@.tags, id),
                texts(t@) == tokens(arg@),
                full == base + tokens(arg@),
                texts(all@) == full.subrange(0, base.len() + i),
                distinct(texts(all@)),
            decreases n - i,
        {
            assert(texts(t@)[i as int] == t@[i as int]@);
            if contains_text(&all, &t[i]) {
                proof {
                    let j = texts(all@).index_of(t@[i as int]@);
                    assert(full[j] == texts(all@)[j]);
                    assert(full[base.len() + i] == t@[i as int]@);
                }
                return Err(ReturnCode::Error);
            }
            proof {
                crate::model::lemma_push_distinct(texts(all@), t@[i as int]@);
                assert(texts(all@.push(t@[i as int])) =~= texts(all@).push(t@[i as int]@));
                assert(texts(all@).push(t@[i as int]@) =~= full.subrange(0, base.len() + i + 1));
            }
            all.push(t[i].clone());
            i += 1;
        }
        assert(full.subrange(0, base.len() + n) =~= full);
        self.tags.insert(id, all);
        assert(self@ =~= old(self)@.tag(arg@).unwrap());
        Ok(ReturnCode::Okay)
    }

    /// The directive `fr`.
    fn set_file_range(&mut self, arg: &str) -> (r: Result<ReturnCode, ReturnCode>)
        requires
            old(self).wf(),
        ensures
            final(self).wf(),
            obeys(old(self)@, final(self)@, r, old(self)@.file_range(arg@)),
    {
        let id = match self.curnode {
            Some(id) => id,
            None => { return Err(ReturnCode::NodeNotSelected); },
        };
        let t = split_whitespace(arg);
        if t.len() == 0 {
            return Err(ReturnCode::NotEnoughArgs);
        }
        assert(texts(t@)[0] == t@[0]@);
        let filename: String = if is_char(t[0].as_str(), '$') {
            match &self.last_filename {
                Some(x) => x.clone(),
                None => { return Err(ReturnCode::Error); },
            }
        } else {
            t[0].clone()
        };
        let start: i32 = if t.len() >= 2 {
            assert(texts(t@)[1] == t@[1]@);
            match parse_i32(t[1].as_str()) {
                Some(x) => x,
                None => { return Err(ReturnCode::Error); },
            }
        } else {
            -1
        };
        let end: i32 = if t.len() >= 3 {
            assert(texts(t@)[2] == t@[2]@);
            match parse_i32(t[2].as_str()) {
                Some(x) => x,
                None => { return Err(ReturnCode::Error); },
            }
        } else {
            -1
        };
        if start >= 0 && end >= 0 && start > end {
            return Err(ReturnCode::Error);
        }
        self.last_filename = Some(filename.clone());
        self.file_ranges.insert(id, FileRange { filename, start, end });
        assert(self@ =~= old(self)@.file_range(arg@).unwrap());
        Ok(ReturnCode::Okay)
    }

    /// The directive `co`.
    fn connect(&mut self, arg: &str) -> (r: Result<ReturnCode, ReturnCode>)
        requires
            old(self).wf(),
        ensures
            final(self).wf(),
            obeys(old(self)@, final(self)@, r, old(self)@.connect(arg@)),
    {
        let ns: String = match &self.namespace {
            Some(n) => n.clone(),
            None => { return Err(ReturnCode::NameSpaceNotSet); },
        };
        let t = split_whitespace(arg);
        if t.len() < 2 {
            return Err(ReturnCode::NotEnoughArgs);
        }
        assert(texts(t@)[0] == t@[0]@);
        assert(texts(t@)[1] == t@[1]@);
        let needed = token_needs_current(t[0].as_str()) || token_needs_current(t[1].as_str());
        let current: String = if needed {
            match self.current_name() {
                Some(s) => s,
                None => { return Err(ReturnCode::NodeNotSelected); },
            }
        } else {
            String::new()
        };
        let left = resolve_connect(ns.as_str(), current.as_str(), t[0].as_str());
        let right = resolve_connect(ns.as_str(), current.as_str(), t[1].as_str());
        if self.already_connected(&left, &right) {
            return Err(ReturnCode::AlreadyConnected);
        }
        let ghost pair = (left@, right@);
        self.connections.push([left, right]);
        proof {
            let want = old(self)@.connect(arg@).unwrap();
            assert(self@.connections =~= old(self)@.connections.push(pair));
            assert(self@ =~= want);
            crate::model::lemma_push_distinct(old(self)@.connections, pair);
        }
        Ok(ReturnCode::Okay)
    }

    /// The directive `cx`.
    fn cross_connect(&mut self, arg: &str) -> (r: Result<ReturnCode, ReturnCode>)
        requires
            old(self).wf(),
        ensures
            final(self).wf(),
            obeys(old(self)@, final(self)@, r, old(self)@.cross_connect(arg@)),
    {
        let t = split_whitespace(arg);
        if t.len() < 2 {
            return Err(ReturnCode::NotEnoughArgs);
        }
        assert(texts(t@)[0] == t@[0]@);
        assert(texts(t@)[1] == t@[1]@);
        let dollar = is_char(t[0].as_str(), '$') || is_char(t[1].as_str(), '$');
        let current: String = if dollar {
            match self.current_name() {
                Some(s) => s,
                None => { return Err(ReturnCode::NodeNotSelected); },
            }
        } else {
            String::new()
        };
        let caret = is_char(t[0].as_str(), '^') || is_char(t[1].as_str(), '^');
        let n: usize = self.connections.len();
        let (prev_left, prev_right) = if caret {
            if n == 0 {
                return Err(ReturnCode::NoConnections);
            }
            let con = &self.connections[n - 1];
            (con[0].clone(), con[1].clone())
        } else {
            (String::new(), String::new())
        };
        if token_is_alias(t[0].as_str()) || token_is_alias(t[1].as_str()) {
            return Err(ReturnCode::Error);
        }
        proof {
            assert(seq!['$'][0] == '$');
            assert(seq!['^'][0] == '^');
            if caret {
                assert(old(self)@.connections.last() == (prev_left@, prev_right@));
            }
        }
        let left = resolve_cross(t[0].as_str(), current.as_str(), prev_left.as_str());
        let right = resolve_cross(t[1].as_str(), current.as_str(), prev_right.as_str());
        if self.already_connected(&left, &right) {
            return Err(ReturnCode::AlreadyConnected);
        }
        let ghost pair = (left@, right@);
        self.xnodes.insert(left.clone());
        self.xnodes.insert(right.clone());
        self.connections.push([left, right]);
        proof {
            let want = old(self)@.cross_connect(arg@).unwrap();
            assert(self@.connections =~= old(self)@.connections.push(pair));
            assert(self@ =~= want);
            crate::model::lemma_push_distinct(old(self)@.connections, pair);
        }
        Ok(ReturnCode::Okay)
    }

    /// Takes one line. An empty line does nothing. In any other line the
    /// first two characters name the directive and everything after the third
    /// character is its argument. The directive is applied in full, or it
    /// fails and the graph stays as it was.
    pub fn parse_line_with_result(&mut self, line: &str) -> (r: Result<ReturnCode, ReturnCode>)
        requires
            old(self).wf(),
        ensures
            final(self).wf(),
            obeys(old(self)@, final(self)@, r, old(self)@.interpret(line@)),
    {
        let n: usize = line.unicode_len();
        if n == 0 {
            return Ok(ReturnCode::Okay);
        }
        if n < 3 {
            return Err(ReturnCode::Error);
        }
        let op = match parse_opcode(line.get_char(0), line.get_char(1)) {
            Some(op) => op,
            None => { return Err(ReturnCode::InvalidCommand); },
        };
        let arg = line.substring_char(3, n);
        match op {
            Opcode::Namespace => self.set_namespace(arg),
            Opcode::GraphRemark => self.add_graph_remark(arg),
            Opcode::NewNode => self.new_node(arg),
            Opcode::Line => self.add_line(arg),
            Opcode::Connect => self.connect(arg),
            Opcode::ConnectRemark => self.add_connect_remark(arg),
            Opcode::Comment => Ok(ReturnCode::Okay),
            Opcode::NodeRemark => self.add_node_remark(arg),
            Opcode::FileRange => self.set_file_range(arg),
            Opcode::Hyperlink => self.set_hyperlink(arg),
            Opcode::Todo => self.set_todo(arg),
            Opcode::Tag => self.add_tags(arg),
            Opcode::SelectNode => self.select_node(arg),
            Opcode::CrossConnect => self.cross_connect(arg),
            Opcode::FlashFront => self.add_flash_front(arg),
            Opcode::FlashBack => self.add_flash_back(arg),
            Opcode::Image => self.set_image(arg),
            Opcode::Audio => self.set_audio(arg),
        }
    }

    /// Takes one line and drops the outcome: a line that fails leaves the
    /// graph as it was.
    pub fn parse_line(&mut self, line: &str)
        requires
            old(self).wf(),
        ensures
            final(self).wf(),
            final(self)@ == old(self)@.after(line@),
    {
        let _ = self.parse_line_with_result(line);
    }
}

impl Default for DagZet {
    fn default() -> (r: DagZet)
        ensures
            r.wf(),
            r@ == Graph::empty(),
    {
        DagZet::new()
    }
}

} // verus!
