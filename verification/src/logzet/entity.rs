//! The entities of a journal: sessions, entries and blocks, in one list.

use crate::dagzet::{clone_lines, lines_of, text_of};
use crate::logzet::statement::{statements, Statement, StatementView};
use crate::logzet::{BlockData, Date, DateView, EntityId, TextBlock, TextBlockView, Time, TimeView};
use crate::model::{appended, Lines};
use crate::text::{find_from, texts, to_chars};
use std::collections::BTreeMap;
use vstd::prelude::*;

verus! {

broadcast use vstd::std_specs::btree::group_btree_axioms;

/// The paths of the graph that an entity is connected to.
pub type DagzetPathList = Vec<String>;

/// The connections of the entities, by their numbers.
pub type ConnectionMap = BTreeMap<EntityId, DagzetPathList>;

/// A session, an entry or a block.
pub enum Entity {
    Block(BlockData),
    Entry(Time),
    Session(Date),
}

/// An entity, as mathematical values.
pub enum EntityView {
    Block(TextBlockView),
    Entry(TimeView),
    Session(DateView),
}

impl View for Entity {
    type V = EntityView;

    open spec fn view(&self) -> EntityView {
        match self {
            Entity::Block(b) => EntityView::Block(b@),
            Entity::Entry(t) => EntityView::Entry(t@),
            Entity::Session(d) => EntityView::Session(d@),
        }
    }
}

/// The views of a list of entities.
pub open spec fn entity_views(v: Seq<Entity>) -> Seq<EntityView> {
    Seq::new(v.len(), |i: int| v[i]@)
}

/// The entities of a journal in their order, and their connections to the
/// graph.
pub struct EntityList {
    pub entities: Vec<Entity>,
    pub connections: ConnectionMap,
}

/// A list of entities, as mathematical values.
pub struct EntityListView {
    pub entities: Seq<EntityView>,
    pub connections: Map<EntityId, Lines>,
}

impl View for EntityList {
    type V = EntityListView;

    open spec fn view(&self) -> EntityListView {
        EntityListView {
            entities: entity_views(self.entities@),
            connections: lines_of(self.connections@),
        }
    }
}

impl Default for EntityList {
    fn default() -> (r: EntityList)
        ensures
            r@.entities.len() == 0,
            r@.connections == Map::<EntityId, Lines>::empty(),
    {
        let r = EntityList { entities: Vec::new(), connections: BTreeMap::new() };
        assert(r@.connections =~= Map::<EntityId, Lines>::empty());
        r
    }
}

/// The place of a block in the list of entities.
#[derive(Debug, Clone, Copy, PartialEq, Eq, Hash)]
pub struct BlockIndex(pub usize);

/// The place of an entry in the list of entities.
#[derive(Debug, Clone, Copy, PartialEq, Eq, Hash)]
pub struct EntryIndex(pub usize);

/// The place of a session in the list of entities.
#[derive(Debug, Clone, Copy, PartialEq, Eq, Hash)]
pub struct SessionIndex(pub usize);

impl Default for EntryIndex {
    fn default() -> (r: EntryIndex)
        ensures
            r.0 == 0,
    {
        EntryIndex(0)
    }
}

impl Default for SessionIndex {
    fn default() -> (r: SessionIndex)
        ensures
            r.0 == 0,
    {
        SessionIndex(0)
    }
}

impl EntityList {
    /// The block at `index`, if the entity there is a block.
    pub fn get_block(&self, index: BlockIndex) -> (r: Option<&BlockData>)
        requires
            index.0 < self.entities@.len(),
        ensures
            match self.entities@[index.0 as int] {
                Entity::Block(b) => r == Some(&b),
                _ => r.is_none(),
            },
    {
        match &self.entities[index.0] {
            Entity::Block(block) => Some(block),
            _ => None,
        }
    }

    /// The entry at `index`, if the entity there is an entry.
    pub fn get_entry(&self, index: EntryIndex) -> (r: Option<&Time>)
        requires
            index.0 < self.entities@.len(),
        ensures
            match self.entities@[index.0 as int] {
                Entity::Entry(t) => r == Some(&t),
                _ => r.is_none(),
            },
    {
        match &self.entities[index.0] {
            Entity::Entry(time) => Some(time),
            _ => None,
        }
    }

    /// The session at `index`, if the entity there is a session.
    pub fn get_session(&self, index: SessionIndex) -> (r: Option<&Date>)
        requires
            index.0 < self.entities@.len(),
        ensures
            match self.entities@[index.0 as int] {
                Entity::Session(d) => r == Some(&d),
                _ => r.is_none(),
            },
    {
        match &self.entities[index.0] {
            Entity::Session(date) => Some(date),
            _ => None,
        }
    }
}

/// What has been gathered from the statements read so far.
#[verifier::ext_equal]
pub struct Digest {
    /// The entities so far.
    pub entities: Seq<EntityView>,
    /// The lines of the block that is open.
    pub block: Option<Lines>,
    /// The connections so far.
    pub connections: Map<EntityId, Lines>,
    /// The path that the last command named in full.
    pub last_node: Option<Seq<char>>,
}

/// The number that the last entity carries: a block and an entry carry
/// one, a session does not.
pub open spec fn last_id(entities: Seq<EntityView>) -> Option<EntityId> {
    if entities.len() == 0 {
        None
    } else {
        match entities.last() {
            EntityView::Block(b) => Some(b.uuid),
            EntityView::Entry(t) => Some(t.id),
            EntityView::Session(_) => None,
        }
    }
}

/// The path that the argument of a command names. An argument that starts
/// with the dollar sign stands for the path named last in full, with what
/// follows the first slash of the argument, if there is one, added behind a
/// slash; without such a path it names nothing. Any other argument is a
/// path in full.
pub open spec fn named(arg: Seq<char>, last: Option<Seq<char>>) -> Option<Seq<char>> {
    if arg.len() > 0 && arg[0] == '$' {
        match last {
            None => None,
            Some(path) => {
                let k = find_from(arg, '/', 0);
                if k < arg.len() {
                    Some(path + seq!['/'] + arg.subrange(k + 1, arg.len() as int))
                } else {
                    Some(path)
                }
            },
        }
    } else {
        Some(arg)
    }
}

impl Digest {
    /// Nothing gathered.
    pub open spec fn empty() -> Digest {
        Digest {
            entities: Seq::empty(),
            block: None,
            connections: Map::empty(),
            last_node: None,
        }
    }

    /// The digest with the open block closed: its lines become a block
    /// behind the entities, numbered by its place.
    pub open spec fn closed(self) -> Digest {
        match self.block {
            Some(lines) => Digest {
                entities: self.entities.push(
                    EntityView::Block(TextBlockView { uuid: self.entities.len() as usize, lines }),
                ),
                block: None,
                ..self
            },
            None => self,
        }
    }

    /// The digest after a command with the arguments `args`. Only the
    /// command `dz` is known: it connects the last entity to the path that
    /// its argument names. A command without arguments does nothing. `None`
    /// says that the command cannot be taken: it is unknown, lacks its
    /// argument, names nothing, or there is no entity that carries a number.
    pub open spec fn commanded(self, args: Seq<Seq<char>>) -> Option<Digest> {
        if args.len() == 0 {
            Some(self)
        } else if args[0] != seq!['d', 'z'] || args.len() < 2 {
            None
        } else {
            match (last_id(self.entities), named(args[1], self.last_node)) {
                (Some(id), Some(node)) => Some(
                    Digest {
                        connections: appended(self.connections, id, node),
                        last_node: if args[1].len() > 0 && args[1][0] == '$' {
                            self.last_node
                        } else {
                            Some(args[1])
                        },
                        ..self
                    },
                ),
                _ => None,
            }
        }
    }

    /// The digest after one more statement. A session and an entry close
    /// the open block and follow it, the entry numbered by its place; a line
    /// of text joins the open block or opens one; a break closes the open
    /// block.
    pub open spec fn absorb(self, s: StatementView) -> Option<Digest> {
        match s {
            StatementView::Date(d) => {
                let c = self.closed();
                Some(Digest { entities: c.entities.push(EntityView::Session(d)), ..c })
            },
            StatementView::Time(t) => {
                let c = self.closed();
                Some(
                    Digest {
                        entities: c.entities.push(
                            EntityView::Entry(TimeView { id: c.entities.len() as usize, ..t }),
                        ),
                        ..c
                    },
                )
            },
            StatementView::TextLine(text) => Some(
                Digest {
                    block: match self.block {
                        Some(lines) => Some(lines.push(text)),
                        None => Some(seq![text]),
                    },
                    ..self
                },
            ),
            StatementView::Break => Some(self.closed()),
            StatementView::PreTextLine(_) => Some(self),
            StatementView::Command(args) => self.commanded(args),
        }
    }
}

/// What is gathered from the first `n` statements.
pub open spec fn digest_upto(stmts: Seq<StatementView>, n: int) -> Option<Digest>
    decreases n,
{
    if n <= 0 {
        Some(Digest::empty())
    } else {
        match digest_upto(stmts, n - 1) {
            Some(d) => d.absorb(stmts[n - 1]),
            None => None,
        }
    }
}

/// The entities of a journal and their connections; `None` if a command
/// among the statements cannot be taken.
pub open spec fn entities_of(stmts: Seq<StatementView>) -> Option<EntityListView> {
    match digest_upto(stmts, stmts.len() as int) {
        Some(d) => Some(
            EntityListView { entities: d.closed().entities, connections: d.connections },
        ),
        None => None,
    }
}

/// Adds `path` at the end of the list under `k`, which it starts if there
/// is none.
fn push_path(m: &mut ConnectionMap, k: EntityId, path: String)
    ensures
        lines_of(final(m)@) == appended(lines_of(old(m)@), k, path@),
{
    let had = m.remove(&k);
    assert(m@ == old(m)@.remove(k));
    let mut v = match had {
        Some(v) => v,
        None => Vec::new(),
    };
    let ghost before = texts(v@);
    assert(before =~= crate::model::lines_at(lines_of(old(m)@), k));
    v.push(path);
    assert(texts(v@) =~= before.push(path@));
    m.insert(k, v);
    assert(m@ == old(m)@.remove(k).insert(k, v));
    assert(lines_of(m@) =~= appended(lines_of(old(m)@), k, path@));
}

/// The number that the last of `entities` carries.
fn last_entity_id(entities: &Vec<Entity>) -> (r: Option<EntityId>)
    ensures
        r == last_id(entity_views(entities@)),
{
    let n: usize = entities.len();
    if n == 0 {
        return None;
    }
    assert(entity_views(entities@).last() == entities@[n - 1]@);
    match &entities[n - 1] {
        Entity::Block(BlockData::Text(text)) => Some(text.uuid),
        Entity::Entry(time) => Some(time.id),
        Entity::Session(_) => None,
    }
}

/// The path that the argument of a command names.
fn resolve_name(arg: &String, last: &Option<String>) -> (r: Option<String>)
    ensures
        text_of(r) == named(arg@, text_of(*last)),
{
    let cs = to_chars(arg.as_str());
    let n: usize = cs.len();
    if n > 0 && cs[0] == '$' {
        match last {
            None => None,
            Some(path) => {
                let mut k: usize = 0;
                while k < n && cs[k] != '/'
                    invariant
                        cs@ == arg@,
                        n == cs@.len(),
                        k <= n,
                        find_from(arg@, '/', k as int) == find_from(arg@, '/', 0),
                    decreases n - k,
                {
                    k += 1;
                }
                if k < n {
                    let mut out = path.clone();
                    proof {
                        reveal_strlit("/");
                        assert("/"@ =~= seq!['/']);
                    }
                    out.append("/");
                    out.append(arg.as_str().substring_char(k + 1, n));
                    Some(out)
                } else {
                    Some(path.clone())
                }
            },
        }
    } else {
        Some(arg.clone())
    }
}

/// Whether `s` is the name of the command that connects.
fn is_dz(s: &String) -> (r: bool)
    ensures
        r == (s@ == seq!['d', 'z']),
{
    let cs = to_chars(s.as_str());
    if cs.len() != 2 {
        return false;
    }
    let r = cs[0] == 'd' && cs[1] == 'z';
    proof {
        if r {
            assert(s@ =~= seq!['d', 'z']);
        } else {
            assert(seq!['d', 'z'][0] == 'd' && seq!['d', 'z'][1] == 'z');
        }
    }
    r
}

/// The state of the reading of a journal.
pub struct Reader {
    pub entities: Vec<Entity>,
    pub block: Option<Vec<String>>,
    pub connections: ConnectionMap,
    pub last_node: Option<String>,
}

impl View for Reader {
    type V = Digest;

    open spec fn view(&self) -> Digest {
        Digest {
            entities: entity_views(self.entities@),
            block: match self.block {
                Some(lines) => Some(texts(lines@)),
                None => None,
            },
            connections: lines_of(self.connections@),
            last_node: text_of(self.last_node),
        }
    }
}

impl Reader {
    /// Closes the open block.
    pub fn close(&mut self)
        ensures
            final(self)@ == old(self)@.closed(),
    {
        let uuid: usize = self.entities.len();
        let taken = self.block.take();
        match taken {
            Some(lines) => {
                let ghost before = entity_views(self.entities@);
                let block = Entity::Block(BlockData::Text(TextBlock { uuid, lines }));
                self.entities.push(block);
                assert(entity_views(self.entities@) =~= before.push(block@));
                assert(self@ =~= old(self)@.closed());
            },
            None => {
                assert(self@ =~= old(self)@.closed());
            },
        }
    }

    /// Takes a command; `false` if it cannot be taken, and then nothing has
    /// changed.
    pub fn command(&mut self, args: &Vec<String>) -> (r: bool)
        ensures
            match old(self)@.commanded(texts(args@)) {
                Some(d) => r && final(self)@ == d,
                None => !r && final(self)@ == old(self)@,
            },
    {
        if args.len() == 0 {
            return true;
        }
        assert(texts(args@)[0] == args@[0]@);
        if !is_dz(&args[0]) || args.len() < 2 {
            return false;
        }
        assert(texts(args@)[1] == args@[1]@);
        let id = match last_entity_id(&self.entities) {
            Some(id) => id,
            None => { return false; },
        };
        let node = match resolve_name(&args[1], &self.last_node) {
            Some(node) => node,
            None => { return false; },
        };
        let cs = to_chars(args[1].as_str());
        if !(cs.len() > 0 && cs[0] == '$') {
            self.last_node = Some(args[1].clone());
        }
        push_path(&mut self.connections, id, node);
        assert(self@ =~= old(self)@.commanded(texts(args@)).unwrap());
        true
    }

    /// Takes a statement; `false` if it is a command that cannot be taken,
    /// and then nothing has changed.
    pub fn take(&mut self, stmt: &Statement) -> (r: bool)
        ensures
            match old(self)@.absorb(stmt@) {
                Some(d) => r && final(self)@ == d,
                None => !r && final(self)@ == old(self)@,
            },
    {
        match stmt {
            Statement::Date(date) => {
                self.close();
                let ghost before = entity_views(self.entities@);
                let e = Entity::Session(date.clone());
                self.entities.push(e);
                assert(entity_views(self.entities@) =~= before.push(e@));
                assert(self@ =~= old(self)@.absorb(stmt@).unwrap());
                true
            },
            Statement::Time(time) => {
                self.close();
                let ghost before = entity_views(self.entities@);
                let id: usize = self.entities.len();
                let e = Entity::Entry(
                    Time {
                        id,
                        key: time.key,
                        title: time.title.clone(),
                        tags: clone_lines(&time.tags),
                    },
                );
                self.entities.push(e);
                assert(entity_views(self.entities@) =~= before.push(e@));
                assert(self@ =~= old(self)@.absorb(stmt@).unwrap());
                true
            },
            Statement::TextLine(text) => {
                let taken = self.block.take();
                let mut lines = match taken {
                    Some(lines) => lines,
                    None => Vec::new(),
                };
                let ghost before = texts(lines@);
                lines.push(text.text.clone());
                assert(texts(lines@) =~= before.push(text.text@));
                assert(old(self)@.block.is_none() ==> texts(lines@) =~= seq![text.text@]);
                self.block = Some(lines);
                assert(self@.block == old(self)@.absorb(stmt@).unwrap().block);
                assert(self@ =~= old(self)@.absorb(stmt@).unwrap());
                true
            },
            Statement::Break => {
                self.close();
                true
            },
            Statement::PreTextLine(_) => true,
            Statement::Command(cmd) => self.command(&cmd.args),
        }
    }
}

/// Gathers the entities of a journal from its statements; `None` if a
/// command among them cannot be taken.
pub fn gather_entities(stmts: &Vec<Statement>) -> (r: Option<EntityList>)
    ensures
        match entities_of(statements(stmts@)) {
            Some(list) => r matches Some(got) && got@ == list,
            None => r.is_none(),
        },
{
    let mut reader = Reader {
        entities: Vec::new(),
        block: None,
        connections: BTreeMap::new(),
        last_node: None,
    };
    assert(reader@ =~= Digest::empty());
    let n: usize = stmts.len();
    let mut i: usize = 0;
    while i < n
        invariant
            n == stmts@.len(),
            i <= n,
            digest_upto(statements(stmts@), i as int) == Some(reader@),
        decreases n - i,
    {
        assert(statements(stmts@)[i as int] == stmts@[i as int]@);
        if !reader.take(&stmts[i]) {
            proof {
                lemma_digest_stays_none(statements(stmts@), i + 1, n as int);
            }
            return None;
        }
        i += 1;
    }
    reader.close();
    Some(EntityList { entities: reader.entities, connections: reader.connections })
}

/// Once a command could not be taken, nothing is gathered any more.
pub proof fn lemma_digest_stays_none(stmts: Seq<StatementView>, m: int, n: int)
    requires
        0 <= m <= n,
        digest_upto(stmts, m).is_none(),
    ensures
        digest_upto(stmts, n).is_none(),
    decreases n,
{
    if m < n {
        lemma_digest_stays_none(stmts, m, n - 1);
    }
}

/// The entities of a journal, gathered from its statements. Every command
/// among them has to be one that can be taken.
pub fn statements_to_entities(stmts: Vec<Statement>) -> (r: EntityList)
    requires
        entities_of(statements(stmts@)).is_some(),
    ensures
        r@ == entities_of(statements(stmts@)).unwrap(),
{
    match gather_entities(&stmts) {
        Some(list) => list,
        None => EntityList::default(),
    }
}

} // verus!
