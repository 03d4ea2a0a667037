//! The mathematical model of the graph under construction, and the meaning
//! of every directive as a function from one model to the next.

use crate::resolve::{connect_side, cross_side, needs_current};
use crate::text::{parse_i32_spec, qualified, tokens};
use vstd::prelude::*;

verus! {

/// The outcome of a directive.
#[derive(Clone, Copy, Debug, PartialEq, Eq, Structural)]
pub enum ReturnCode {
    Okay,
    Error,
    InvalidCommand,
    NameSpaceNotSet,
    NodeAlreadyExists,
    NodeNotSelected,
    NotEnoughArgs,
    AlreadyConnected,
    NoConnections,
}

impl ReturnCode {
    /// What the code says, in words.
    pub open spec fn text(self) -> Seq<char> {
        match self {
            ReturnCode::Okay => "Everything is okay!"@,
            ReturnCode::Error => "Something went wrong."@,
            ReturnCode::InvalidCommand => "Invalid command"@,
            ReturnCode::NameSpaceNotSet => "Namespace not set"@,
            ReturnCode::NodeAlreadyExists => "Node Already Exists"@,
            ReturnCode::NodeNotSelected => "Node Not Selected."@,
            ReturnCode::NotEnoughArgs => "Not Enough arguments"@,
            ReturnCode::AlreadyConnected => "Already connected"@,
            ReturnCode::NoConnections => "No connections made"@,
        }
    }

    /// What the code says, in words.
    pub fn message(&self) -> (r: String)
        ensures
            r@ == self.text(),
    {
        match self {
            ReturnCode::Okay => "Everything is okay!".to_owned(),
            ReturnCode::Error => "Something went wrong.".to_owned(),
            ReturnCode::InvalidCommand => "Invalid command".to_owned(),
            ReturnCode::NameSpaceNotSet => "Namespace not set".to_owned(),
            ReturnCode::NodeAlreadyExists => "Node Already Exists".to_owned(),
            ReturnCode::NodeNotSelected => "Node Not Selected.".to_owned(),
            ReturnCode::NotEnoughArgs => "Not Enough arguments".to_owned(),
            ReturnCode::AlreadyConnected => "Already connected".to_owned(),
            ReturnCode::NoConnections => "No connections made".to_owned(),
        }
    }
}

/// A range of lines of a file. A bound of -1 is absent: without an end the
/// range runs to the end of the file, without both it is the whole file.
pub struct Span {
    pub filename: Seq<char>,
    pub start: i32,
    pub end: i32,
}

/// The two faces of a flashcard, line by line.
pub struct Card {
    pub front: Seq<Seq<char>>,
    pub back: Seq<Seq<char>>,
}

/// A list of text lines.
pub type Lines = Seq<Seq<char>>;

/// The graph under construction.
#[verifier::ext_equal]
pub struct Graph {
    /// The current namespace.
    pub namespace: Option<Seq<char>>,
    /// The remarks on each namespace.
    pub graph_remarks: Map<Seq<char>, Lines>,
    /// The namespaces that have remarks, in the order of their first remark.
    pub remarked: Seq<Seq<char>>,
    /// The id of the current node.
    pub curnode: Option<u32>,
    /// The qualified names of the nodes; the node at index `i` has id `i + 1`.
    pub nodelist: Seq<Seq<char>>,
    /// The text lines of each node.
    pub lines: Map<u32, Lines>,
    /// The connections, as pairs of qualified names, in the order made.
    pub connections: Seq<(Seq<char>, Seq<char>)>,
    /// The remarks on each connection, by its index.
    pub connection_remarks: Map<usize, Lines>,
    /// The remarks on each node.
    pub node_remarks: Map<u32, Lines>,
    /// The file range of each node.
    pub file_ranges: Map<u32, Span>,
    /// The file name that a file range used last.
    pub last_filename: Option<Seq<char>>,
    /// The hyperlink of each node.
    pub hyperlinks: Map<u32, Seq<char>>,
    /// The task of each node.
    pub todos: Map<u32, Seq<char>>,
    /// The tags of each node, in the order given.
    pub tags: Map<u32, Lines>,
    /// The names that cross connections have used.
    pub xnodes: Set<Seq<char>>,
    /// The flashcard of each node.
    pub flashcards: Map<u32, Card>,
    /// The image file of each node.
    pub images: Map<u32, Seq<char>>,
    /// The audio file of each node.
    pub audio: Map<u32, Seq<char>>,
}

/// The directives.
#[derive(Clone, Copy, Debug, PartialEq, Eq, Structural)]
pub enum Opcode {
    Namespace,
    GraphRemark,
    NewNode,
    Line,
    Connect,
    ConnectRemark,
    Comment,
    NodeRemark,
    FileRange,
    Hyperlink,
    Todo,
    Tag,
    SelectNode,
    CrossConnect,
    FlashFront,
    FlashBack,
    Image,
    Audio,
}

/// The directive that two letters name.
pub open spec fn opcode_of(a: char, b: char) -> Option<Opcode> {
    if a == 'n' && b == 's' {
        Some(Opcode::Namespace)
    } else if a == 'g' && b == 'r' {
        Some(Opcode::GraphRemark)
    } else if a == 'n' && b == 'n' {
        Some(Opcode::NewNode)
    } else if a == 'l' && b == 'n' {
        Some(Opcode::Line)
    } else if a == 'c' && b == 'o' {
        Some(Opcode::Connect)
    } else if a == 'c' && b == 'r' {
        Some(Opcode::ConnectRemark)
    } else if a == 'z' && b == 'z' {
        Some(Opcode::Comment)
    } else if a == 'r' && b == 'm' {
        Some(Opcode::NodeRemark)
    } else if a == 'f' && b == 'r' {
        Some(Opcode::FileRange)
    } else if a == 'h' && b == 'l' {
        Some(Opcode::Hyperlink)
    } else if a == 't' && b == 'd' {
        Some(Opcode::Todo)
    } else if a == 't' && b == 'g' {
        Some(Opcode::Tag)
    } else if a == 's' && b == 'n' {
        Some(Opcode::SelectNode)
    } else if a == 'c' && b == 'x' {
        Some(Opcode::CrossConnect)
    } else if a == 'f' && b == 'f' {
        Some(Opcode::FlashFront)
    } else if a == 'f' && b == 'b' {
        Some(Opcode::FlashBack)
    } else if a == 'i' && b == 'm' {
        Some(Opcode::Image)
    } else if a == 'a' && b == 'u' {
        Some(Opcode::Audio)
    } else {
        None
    }
}

/// `m` with `line` added at the end of the list under `k`.
pub open spec fn appended<K>(m: Map<K, Lines>, k: K, line: Seq<char>) -> Map<K, Lines> {
    if m.contains_key(k) {
        m.insert(k, m[k].push(line))
    } else {
        m.insert(k, seq![line])
    }
}

/// The list under `k`, empty if there is none.
pub open spec fn lines_at<K>(m: Map<K, Lines>, k: K) -> Lines {
    if m.contains_key(k) {
        m[k]
    } else {
        Seq::empty()
    }
}

/// The card under `k`, blank if there is none.
pub open spec fn card_at(m: Map<u32, Card>, k: u32) -> Card {
    if m.contains_key(k) {
        m[k]
    } else {
        Card { front: Seq::empty(), back: Seq::empty() }
    }
}

/// No item of `s` occurs twice.
pub open spec fn distinct<A>(s: Seq<A>) -> bool {
    forall|i: int, j: int| 0 <= i < j < s.len() ==> s[i] != s[j]
}

impl Graph {
    /// The graph before any directive.
    pub open spec fn empty() -> Graph {
        Graph {
            namespace: None,
            graph_remarks: Map::empty(),
            remarked: Seq::empty(),
            curnode: None,
            nodelist: Seq::empty(),
            lines: Map::empty(),
            connections: Seq::empty(),
            connection_remarks: Map::empty(),
            node_remarks: Map::empty(),
            file_ranges: Map::empty(),
            last_filename: None,
            hyperlinks: Map::empty(),
            todos: Map::empty(),
            tags: Map::empty(),
            xnodes: Set::empty(),
            flashcards: Map::empty(),
            images: Map::empty(),
            audio: Map::empty(),
        }
    }

    /// Whether `id` is the id of a node.
    pub open spec fn is_node(self, id: u32) -> bool {
        1 <= id && id <= self.nodelist.len()
    }

    /// The id of the node called `name`, if there is one.
    pub open spec fn id_of(self, name: Seq<char>) -> Option<u32> {
        if self.nodelist.contains(name) {
            Some((self.nodelist.index_of(name) + 1) as u32)
        } else {
            None
        }
    }

    /// The qualified name of the current node.
    pub open spec fn current_path(self) -> Seq<char> {
        self.nodelist[self.curnode.unwrap() - 1]
    }

    /// Whether the connection from `left` to `right` has been made.
    pub open spec fn connected(self, left: Seq<char>, right: Seq<char>) -> bool {
        self.connections.contains((left, right))
    }

    /// Whether a connection may name `name`: it is a node, or a cross
    /// connection has used it.
    pub open spec fn known(self, name: Seq<char>) -> bool {
        self.nodelist.contains(name) || self.xnodes.contains(name)
    }

    /// The invariant of the graph: node names are unique and their ids fit,
    /// the current node is a node, no connection is made twice, every
    /// attribute belongs to a node, every connection remark to a connection,
    /// no node carries a tag twice, and the remarked namespaces are those
    /// with remarks.
    pub open spec fn wf(self) -> bool {
        &&& distinct(self.nodelist)
        &&& self.nodelist.len() <= u32::MAX
        &&& self.curnode matches Some(id) ==> self.is_node(id)
        &&& distinct(self.connections)
        &&& forall|k: usize| #[trigger]
            self.connection_remarks.contains_key(k) ==> k < self.connections.len()
        &&& forall|k: u32| #[trigger] self.lines.contains_key(k) ==> self.is_node(k)
        &&& forall|k: u32| #[trigger] self.node_remarks.contains_key(k) ==> self.is_node(k)
        &&& forall|k: u32| #[trigger] self.file_ranges.contains_key(k) ==> self.is_node(k)
        &&& forall|k: u32| #[trigger] self.hyperlinks.contains_key(k) ==> self.is_node(k)
        &&& forall|k: u32| #[trigger] self.todos.contains_key(k) ==> self.is_node(k)
        &&& forall|k: u32| #[trigger] self.tags.contains_key(k) ==> self.is_node(k)
        &&& forall|k: u32| #[trigger] self.flashcards.contains_key(k) ==> self.is_node(k)
        &&& forall|k: u32| #[trigger] self.images.contains_key(k) ==> self.is_node(k)
        &&& forall|k: u32| #[trigger] self.audio.contains_key(k) ==> self.is_node(k)
        &&& forall|k: u32| #[trigger] self.tags.contains_key(k) ==> distinct(self.tags[k])
        &&& forall|k: u32| #[trigger]
            self.file_ranges.contains_key(k) ==> ordered(
                self.file_ranges[k].start,
                self.file_ranges[k].end,
            )
        &&& distinct(self.remarked)
        &&& forall|ns: Seq<char>|
            self.remarked.contains(ns) <==> #[trigger] self.graph_remarks.contains_key(ns)
    }

    /// Sets the current namespace.
    pub open spec fn set_namespace(self, arg: Seq<char>) -> Result<Graph, ReturnCode> {
        Ok(Graph { namespace: Some(arg), ..self })
    }

    /// Adds a remark on the current namespace.
    pub open spec fn graph_remark(self, arg: Seq<char>) -> Result<Graph, ReturnCode> {
        match self.namespace {
            None => Err(ReturnCode::NameSpaceNotSet),
            Some(ns) => Ok(
                Graph {
                    graph_remarks: appended(self.graph_remarks, ns, arg),
                    remarked: if self.graph_remarks.contains_key(ns) {
                        self.remarked
                    } else {
                        self.remarked.push(ns)
                    },
                    ..self
                },
            ),
        }
    }

    /// Creates the node `arg` in the current namespace and selects it. The
    /// new node gets the next id. A name that exists is refused, and so is a
    /// node whose id would not fit.
    pub open spec fn new_node(self, arg: Seq<char>) -> Result<Graph, ReturnCode> {
        match self.namespace {
            None => Err(ReturnCode::NameSpaceNotSet),
            Some(ns) => {
                let name = qualified(ns, arg);
                if self.nodelist.contains(name) {
                    Err(ReturnCode::NodeAlreadyExists)
                } else if self.nodelist.len() >= u32::MAX {
                    Err(ReturnCode::Error)
                } else {
                    Ok(
                        Graph {
                            nodelist: self.nodelist.push(name),
                            curnode: Some((self.nodelist.len() + 1) as u32),
                            ..self
                        },
                    )
                }
            },
        }
    }

    /// Adds a text line to the current node.
    pub open spec fn line(self, arg: Seq<char>) -> Result<Graph, ReturnCode> {
        match self.curnode {
            None => Err(ReturnCode::NodeNotSelected),
            Some(id) => Ok(Graph { lines: appended(self.lines, id, arg), ..self }),
        }
    }

    /// Connects two nodes of the current namespace. Each side is resolved on
    /// its own; a connection that exists is refused.
    pub open spec fn connect(self, arg: Seq<char>) -> Result<Graph, ReturnCode> {
        let t = tokens(arg);
        match self.namespace {
            None => Err(ReturnCode::NameSpaceNotSet),
            Some(ns) => if t.len() < 2 {
                Err(ReturnCode::NotEnoughArgs)
            } else if (needs_current(t[0]) || needs_current(t[1])) && self.curnode.is_none() {
                Err(ReturnCode::NodeNotSelected)
            } else {
                let left = connect_side(ns, self.current_path(), t[0]);
                let right = connect_side(ns, self.current_path(), t[1]);
                if self.connected(left, right) {
                    Err(ReturnCode::AlreadyConnected)
                } else {
                    Ok(Graph { connections: self.connections.push((left, right)), ..self })
                }
            },
        }
    }

    /// Adds a remark on the connection made last.
    pub open spec fn connect_remark(self, arg: Seq<char>) -> Result<Graph, ReturnCode> {
        if self.connections.len() == 0 {
            Err(ReturnCode::NoConnections)
        } else {
            Ok(
                Graph {
                    connection_remarks: appended(
                        self.connection_remarks,
                        (self.connections.len() - 1) as usize,
                        arg,
                    ),
                    ..self
                },
            )
        }
    }

    /// Adds a remark on the current node.
    pub open spec fn node_remark(self, arg: Seq<char>) -> Result<Graph, ReturnCode> {
        match self.curnode {
            None => Err(ReturnCode::NodeNotSelected),
            Some(id) => Ok(Graph { node_remarks: appended(self.node_remarks, id, arg), ..self }),
        }
    }

    /// Ties the current node to a file, or to a range of its lines: a file
    /// name, or the dollar sign for the name used last, then a start, then
    /// an end.
    pub open spec fn file_range(self, arg: Seq<char>) -> Result<Graph, ReturnCode> {
        let t = tokens(arg);
        match self.curnode {
            None => Err(ReturnCode::NodeNotSelected),
            Some(id) => if t.len() == 0 {
                Err(ReturnCode::NotEnoughArgs)
            } else {
                let filename = if t[0] == seq!['$'] {
                    self.last_filename
                } else {
                    Some(t[0])
                };
                let start = if t.len() >= 2 {
                    parse_i32_spec(t[1])
                } else {
                    Some(-1i32)
                };
                let end = if t.len() >= 3 {
                    parse_i32_spec(t[2])
                } else {
                    Some(-1i32)
                };
                if filename.is_none() || start.is_none() || end.is_none() {
                    Err(ReturnCode::Error)
                } else if !ordered(start.unwrap(), end.unwrap()) {
                    Err(ReturnCode::Error)
                } else {
                    Ok(
                        Graph {
                            last_filename: filename,
                            file_ranges: self.file_ranges.insert(
                                id,
                                Span {
                                    filename: filename.unwrap(),
                                    start: start.unwrap(),
                                    end: end.unwrap(),
                                },
                            ),
                            ..self
                        },
                    )
                }
            },
        }
    }

    /// Sets the hyperlink of the current node to the first token.
    pub open spec fn hyperlink(self, arg: Seq<char>) -> Result<Graph, ReturnCode> {
        let t = tokens(arg);
        if t.len() == 0 {
            Err(ReturnCode::NotEnoughArgs)
        } else {
            match self.curnode {
                None => Err(ReturnCode::NodeNotSelected),
                Some(id) => Ok(Graph { hyperlinks: self.hyperlinks.insert(id, t[0]), ..self }),
            }
        }
    }

    /// Sets the task of the current node.
    pub open spec fn todo(self, arg: Seq<char>) -> Result<Graph, ReturnCode> {
        match self.curnode {
            None => Err(ReturnCode::NodeNotSelected),
            Some(id) => Ok(Graph { todos: self.todos.insert(id, arg), ..self }),
        }
    }

    /// Adds every token to the tags of the current node. A tag that the node
    /// has, or that the line gives twice, refuses the whole line.
    pub open spec fn tag(self, arg: Seq<char>) -> Result<Graph, ReturnCode> {
        match self.curnode {
            None => Err(ReturnCode::NodeNotSelected),
            Some(id) => {
                let all = lines_at(self.tags, id) + tokens(arg);
                if !distinct(all) {
                    Err(ReturnCode::Error)
                } else {
                    Ok(Graph { tags: self.tags.insert(id, all), ..self })
                }
            },
        }
    }

    /// Selects the node that the first token names in the current namespace.
    pub open spec fn select_node(self, arg: Seq<char>) -> Result<Graph, ReturnCode> {
        let t = tokens(arg);
        match self.namespace {
            None => Err(ReturnCode::NameSpaceNotSet),
            Some(ns) => if t.len() == 0 {
                Err(ReturnCode::Error)
            } else {
                match self.id_of(qualified(ns, t[0])) {
                    None => Err(ReturnCode::Error),
                    Some(id) => Ok(Graph { curnode: Some(id), ..self }),
                }
            },
        }
    }

    /// Connects two names given in full, and notes both as names from
    /// outside. The dollar sign stands for the current node, the caret for
    /// the same side of the connection made last. A token that starts with
    /// the at sign is an alias, which is refused.
    pub open spec fn cross_connect(self, arg: Seq<char>) -> Result<Graph, ReturnCode> {
        let t = tokens(arg);
        if t.len() < 2 {
            Err(ReturnCode::NotEnoughArgs)
        } else if (t[0] == seq!['$'] || t[1] == seq!['$']) && self.curnode.is_none() {
            Err(ReturnCode::NodeNotSelected)
        } else if (t[0] == seq!['^'] || t[1] == seq!['^']) && self.connections.len() == 0 {
            Err(ReturnCode::NoConnections)
        } else if is_alias(t[0]) || is_alias(t[1]) {
            Err(ReturnCode::Error)
        } else {
            let left = cross_side(t[0], self.current_path(), self.connections.last().0);
            let right = cross_side(t[1], self.current_path(), self.connections.last().1);
            if self.connected(left, right) {
                Err(ReturnCode::AlreadyConnected)
            } else {
                Ok(
                    Graph {
                        connections: self.connections.push((left, right)),
                        xnodes: self.xnodes.insert(left).insert(right),
                        ..self
                    },
                )
            }
        }
    }

    /// Adds a line to the front of the flashcard of the current node.
    pub open spec fn flash_front(self, arg: Seq<char>) -> Result<Graph, ReturnCode> {
        match self.curnode {
            None => Err(ReturnCode::NodeNotSelected),
            Some(id) => {
                let card = card_at(self.flashcards, id);
                Ok(
                    Graph {
                        flashcards: self.flashcards.insert(
                            id,
                            Card { front: card.front.push(arg), back: card.back },
                        ),
                        ..self
                    },
                )
            },
        }
    }

    /// Adds a line to the back of the flashcard of the current node.
    pub open spec fn flash_back(self, arg: Seq<char>) -> Result<Graph, ReturnCode> {
        match self.curnode {
            None => Err(ReturnCode::NodeNotSelected),
            Some(id) => {
                let card = card_at(self.flashcards, id);
                Ok(
                    Graph {
                        flashcards: self.flashcards.insert(
                            id,
                            Card { front: card.front, back: card.back.push(arg) },
                        ),
                        ..self
                    },
                )
            },
        }
    }

    /// Sets the image file of the current node.
    pub open spec fn image(self, arg: Seq<char>) -> Result<Graph, ReturnCode> {
        match self.curnode {
            None => Err(ReturnCode::NodeNotSelected),
            Some(id) => Ok(Graph { images: self.images.insert(id, arg), ..self }),
        }
    }

    /// Sets the audio file of the current node.
    pub open spec fn sound(self, arg: Seq<char>) -> Result<Graph, ReturnCode> {
        match self.curnode {
            None => Err(ReturnCode::NodeNotSelected),
            Some(id) => Ok(Graph { audio: self.audio.insert(id, arg), ..self }),
        }
    }

    /// What the directive `op` with the argument `arg` makes of the graph.
    pub open spec fn apply(self, op: Opcode, arg: Seq<char>) -> Result<Graph, ReturnCode> {
        match op {
            Opcode::Namespace => self.set_namespace(arg),
            Opcode::GraphRemark => self.graph_remark(arg),
            Opcode::NewNode => self.new_node(arg),
            Opcode::Line => self.line(arg),
            Opcode::Connect => self.connect(arg),
            Opcode::ConnectRemark => self.connect_remark(arg),
            Opcode::Comment => Ok(self),
            Opcode::NodeRemark => self.node_remark(arg),
            Opcode::FileRange => self.file_range(arg),
            Opcode::Hyperlink => self.hyperlink(arg),
            Opcode::Todo => self.todo(arg),
            Opcode::Tag => self.tag(arg),
            Opcode::SelectNode => self.select_node(arg),
            Opcode::CrossConnect => self.cross_connect(arg),
            Opcode::FlashFront => self.flash_front(arg),
            Opcode::FlashBack => self.flash_back(arg),
            Opcode::Image => self.image(arg),
            Opcode::Audio => self.sound(arg),
        }
    }

    /// What one line makes of the graph. An empty line changes nothing. In
    /// any other line the first two characters name the directive and
    /// everything after the third character is its argument; a shorter line
    /// is an error, and so is a directive that does not exist.
    pub open spec fn interpret(self, line: Seq<char>) -> Result<Graph, ReturnCode> {
        if line.len() == 0 {
            Ok(self)
        } else if line.len() < 3 {
            Err(ReturnCode::Error)
        } else {
            match opcode_of(line[0], line[1]) {
                None => Err(ReturnCode::InvalidCommand),
                Some(op) => self.apply(op, line.subrange(3, line.len() as int)),
            }
        }
    }

    /// The graph after one line: a line that fails changes nothing.
    pub open spec fn after(self, line: Seq<char>) -> Graph {
        match self.interpret(line) {
            Ok(g) => g,
            Err(_) => self,
        }
    }
}

/// Whether a start and an end, where both are given, come in order.
pub open spec fn ordered(start: i32, end: i32) -> bool {
    !(start >= 0 && end >= 0 && start > end)
}

/// Whether a token is written as an alias.
pub open spec fn is_alias(token: Seq<char>) -> bool {
    token.len() > 0 && token[0] == '@'
}

/// Whether `x` is in `s` with one more item `y`.
pub proof fn lemma_push_contains<A>(s: Seq<A>, y: A, x: A)
    ensures
        s.push(y).contains(x) <==> s.contains(x) || x == y,
{
    if s.push(y).contains(x) {
        let i = s.push(y).index_of(x);
        if i < s.len() {
            assert(s[i] == x);
        }
    }
    if s.contains(x) {
        let i = s.index_of(x);
        assert(s.push(y)[i] == x);
    }
    if x == y {
        assert(s.push(y)[s.len() as int] == x);
    }
}

/// A list of distinct items stays one with an item that it lacks.
pub proof fn lemma_push_distinct<A>(s: Seq<A>, y: A)
    requires
        distinct(s),
        !s.contains(y),
    ensures
        distinct(s.push(y)),
{
    assert forall|i: int, j: int| 0 <= i < j < s.push(y).len() implies s.push(y)[i] != s.push(
        y,
    )[j] by {
        if j == s.len() {
            assert(s[i] == s.push(y)[i]);
        }
    }
}

/// A remark on the namespace keeps the graph well formed.
pub proof fn lemma_graph_remark_wf(g: Graph, arg: Seq<char>)
    requires
        g.wf(),
        g.graph_remark(arg).is_ok(),
    ensures
        g.graph_remark(arg).unwrap().wf(),
{
    let ns = g.namespace.unwrap();
    let h = g.graph_remark(arg).unwrap();
    if !g.graph_remarks.contains_key(ns) {
        lemma_push_distinct(g.remarked, ns);
    }
    assert forall|other: Seq<char>| h.remarked.contains(other) <==> #[trigger]
        h.graph_remarks.contains_key(other) by {
        lemma_push_contains(g.remarked, ns, other);
    }
}

/// A new node keeps the graph well formed.
pub proof fn lemma_new_node_wf(g: Graph, arg: Seq<char>)
    requires
        g.wf(),
        g.new_node(arg).is_ok(),
    ensures
        g.new_node(arg).unwrap().wf(),
{
    let name = qualified(g.namespace.unwrap(), arg);
    lemma_push_distinct(g.nodelist, name);
}

/// Whether a handler that returned `got` and left `after` did to `before`
/// what `want` says: on success the graph is the new one, on failure it is
/// unchanged and the code is the one wanted.
pub open spec fn obeys(
    before: Graph,
    after: Graph,
    got: Result<ReturnCode, ReturnCode>,
    want: Result<Graph, ReturnCode>,
) -> bool {
    match want {
        Ok(g) => got == Ok::<ReturnCode, ReturnCode>(ReturnCode::Okay) && after == g,
        Err(e) => got == Err::<ReturnCode, ReturnCode>(e) && after == before,
    }
}

} // verus!
