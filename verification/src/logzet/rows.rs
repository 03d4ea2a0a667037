//! The rows that a session gives to the tables of the journal.

use crate::dagzet::text_of;
use crate::logzet::entity::{Entity, EntityList};
use crate::logzet::session::{EntryView, SessionModel};
use crate::logzet::session_tree::{EntryNode, EntryNodeView, SessionNode};
use crate::logzet::{DateKey, DateKeyView, EntityId, Session, TimeKey};
use crate::model::{lines_at, Lines};
use crate::text::{decimal, decimal_text, join, joined, padded, padded_text, texts};
use vstd::prelude::*;
use vstd::std_specs::convert::FromSpecImpl;

verus! {

broadcast use vstd::std_specs::btree::group_btree_axioms;

/// The row of an entry.
pub struct EntryRow {
    pub entity_id: EntityId,
    pub day: String,
    pub time: String,
    pub title: String,
    pub category: Option<String>,
    pub nblocks: usize,
    pub top_block: Option<usize>,
    pub position: usize,
}

/// The row of an entry, as mathematical values.
pub struct EntryRowView {
    pub entity_id: EntityId,
    pub day: Seq<char>,
    pub time: Seq<char>,
    pub title: Seq<char>,
    pub category: Option<Seq<char>>,
    pub nblocks: usize,
    pub top_block: Option<usize>,
    pub position: usize,
}

impl View for EntryRow {
    type V = EntryRowView;

    open spec fn view(&self) -> EntryRowView {
        EntryRowView {
            entity_id: self.entity_id,
            day: self.day@,
            time: self.time@,
            title: self.title@,
            category: text_of(self.category),
            nblocks: self.nblocks,
            top_block: self.top_block,
            position: self.position,
        }
    }
}

/// The row of a session.
pub struct SessionRow {
    pub entity_id: EntityId,
    pub day: String,
    pub title: Option<String>,
    pub category: Option<String>,
    pub blurb: Option<String>,
}

/// The row of a session, as mathematical values.
pub struct SessionRowView {
    pub entity_id: EntityId,
    pub day: Seq<char>,
    pub title: Option<Seq<char>>,
    pub category: Option<Seq<char>>,
    pub blurb: Option<Seq<char>>,
}

impl View for SessionRow {
    type V = SessionRowView;

    open spec fn view(&self) -> SessionRowView {
        SessionRowView {
            entity_id: self.entity_id,
            day: self.day@,
            title: text_of(self.title),
            category: text_of(self.category),
            blurb: text_of(self.blurb),
        }
    }
}

impl Default for SessionRow {
    fn default() -> (r: SessionRow)
        ensures
            r@ == (SessionRowView {
                entity_id: 0,
                day: Seq::empty(),
                title: None,
                category: None,
                blurb: None,
            }),
    {
        SessionRow { entity_id: 0, day: String::new(), title: None, category: None, blurb: None }
    }
}

/// The row of a block.
pub struct BlockRow {
    pub entity_id: EntityId,
    pub parent_id: EntityId,
    pub position: usize,
    pub content: String,
}

impl Default for BlockRow {
    fn default() -> (r: BlockRow)
        ensures
            r.entity_id == 0,
            r.parent_id == 0,
            r.position == 0,
            r.content@ == Seq::<char>::empty(),
    {
        BlockRow { entity_id: 0, parent_id: 0, position: 0, content: String::new() }
    }
}

/// The row of a connection of an entity to the graph.
pub struct EntityConnectionsRow {
    pub entity_id: EntityId,
    pub node: String,
}

impl Default for EntityConnectionsRow {
    fn default() -> (r: EntityConnectionsRow)
        ensures
            r.entity_id == 0,
            r.node@ == Seq::<char>::empty(),
    {
        EntityConnectionsRow { entity_id: 0, node: String::new() }
    }
}

/// What names an entity: the day of its session, the time of its entry,
/// and its place among the blocks of the entry.
pub struct EntityRowId {
    pub date: Option<DateKey>,
    pub time: Option<TimeKey>,
    pub position: Option<usize>,
}

/// The name of an entity, as mathematical values.
pub struct EntityRowIdView {
    pub date: Option<DateKeyView>,
    pub time: Option<TimeKey>,
    pub position: Option<usize>,
}

impl View for EntityRowId {
    type V = EntityRowIdView;

    open spec fn view(&self) -> EntityRowIdView {
        EntityRowIdView {
            date: match self.date {
                Some(d) => Some(d@),
                None => None,
            },
            time: self.time,
            position: self.position,
        }
    }
}

impl Default for EntityRowId {
    fn default() -> (r: EntityRowId)
        ensures
            r@ == (EntityRowIdView { date: None, time: None, position: None }),
    {
        EntityRowId { date: None, time: None, position: None }
    }
}

/// The row of an entity.
pub struct EntityRow {
    pub uuid: EntityRowId,
}

impl View for EntityRow {
    type V = EntityRowIdView;

    open spec fn view(&self) -> EntityRowIdView {
        self.uuid@
    }
}

impl Default for EntityRow {
    fn default() -> (r: EntityRow)
        ensures
            r@ == (EntityRowIdView { date: None, time: None, position: None }),
    {
        EntityRow { uuid: EntityRowId::default() }
    }
}

/// The rows of one session.
pub struct SessionRows {
    pub logs: Vec<EntryRow>,
    pub dayblurb: SessionRow,
    pub blocks: Vec<BlockRow>,
    pub entities: Vec<EntityRow>,
    pub connections: Vec<EntityConnectionsRow>,
}

/// The views of a list of entry rows.
pub open spec fn log_views(v: Seq<EntryRow>) -> Seq<EntryRowView> {
    Seq::new(v.len(), |i: int| v[i]@)
}

/// The views of a list of entity rows.
pub open spec fn name_views(v: Seq<EntityRow>) -> Seq<EntityRowIdView> {
    Seq::new(v.len(), |i: int| v[i]@)
}

/// A day as year, month and day with hyphens between them, in four, two
/// and two digits.
pub open spec fn day_text(k: DateKeyView) -> Seq<char> {
    padded_text(k.year as nat, 4) + "-"@ + padded_text(k.month as nat, 2) + "-"@ + padded_text(
        k.day as nat,
        2,
    )
}

/// A day, with its context behind a hash sign where it has one.
pub open spec fn date_text(k: DateKeyView) -> Seq<char> {
    match k.context {
        Some(c) => day_text(k) + "#"@ + c,
        None => day_text(k),
    }
}

/// A time as hour and minute in two digits each, with a colon between them.
pub open spec fn time_text(t: TimeKey) -> Seq<char> {
    padded_text(t.hour as nat, 2) + ":"@ + padded_text(t.minute as nat, 2)
}

/// The parts of the name of an entity: the day, the time and the place, as
/// far as it has them.
pub open spec fn name_parts(id: EntityRowIdView) -> Seq<Seq<char>> {
    (match id.date {
        Some(d) => seq![date_text(d)],
        None => Seq::empty(),
    }) + (match id.time {
        Some(t) => seq![time_text(t)],
        None => Seq::empty(),
    }) + (match id.position {
        Some(p) => seq![decimal_text(p as nat)],
        None => Seq::empty(),
    })
}

/// The name of an entity: its parts with slashes between them.
pub open spec fn name_text(id: EntityRowIdView) -> Seq<char> {
    joined(name_parts(id), "/"@)
}

impl DateKey {
    /// The day without its context.
    pub fn day_string(&self) -> (r: String)
        ensures
            r@ == day_text(self@),
    {
        let mut out = padded(self.year as u64, 4);
        out.append("-");
        out.append(padded(self.month as u64, 2).as_str());
        out.append("-");
        out.append(padded(self.day as u64, 2).as_str());
        out
    }

    /// The day, with its context behind a hash sign where it has one.
    pub fn to_text(&self) -> (r: String)
        ensures
            r@ == date_text(self@),
    {
        let mut out = self.day_string();
        match &self.context {
            Some(c) => {
                out.append("#");
                out.append(c.as_str());
            },
            None => {},
        }
        out
    }
}

impl TimeKey {
    /// The time as hour and minute with a colon between them.
    pub fn to_text(&self) -> (r: String)
        ensures
            r@ == time_text(*self),
    {
        let mut out = padded(self.hour as u64, 2);
        out.append(":");
        out.append(padded(self.minute as u64, 2).as_str());
        out
    }
}

impl EntityRow {
    /// The name of the entity.
    pub fn to_text(&self) -> (r: String)
        ensures
            r@ == name_text(self@),
    {
        let mut chunks: Vec<String> = Vec::new();
        assert(texts(chunks@) =~= Seq::empty());
        match &self.uuid.date {
            Some(date) => {
                chunks.push(date.to_text());
                assert(texts(chunks@) =~= seq![date_text(date@)]);
            },
            None => {},
        }
        let ghost first = texts(chunks@);
        match &self.uuid.time {
            Some(time) => {
                chunks.push(time.to_text());
                assert(texts(chunks@) =~= first + seq![time_text(*time)]);
            },
            None => {
                assert(texts(chunks@) =~= first + Seq::empty());
            },
        }
        let ghost second = texts(chunks@);
        match self.uuid.position {
            Some(position) => {
                chunks.push(decimal(position as u64));
                assert(texts(chunks@) =~= second + seq![decimal_text(position as nat)]);
            },
            None => {
                assert(texts(chunks@) =~= second + Seq::empty());
            },
        }
        join(&chunks, "/")
    }
}

/// The row of an entry of a session on the day `day`.
pub open spec fn log_of(day: DateKeyView, e: EntryView) -> EntryRowView {
    EntryRowView {
        entity_id: 0,
        day: day_text(day),
        time: time_text(e.time.key),
        title: e.time.title,
        category: None,
        nblocks: 0,
        top_block: None,
        position: 0,
    }
}

/// The names of the first `n` entries of a session on the day `day` and of
/// their blocks: each entry is followed by its blocks in their order.
pub open spec fn entry_names(day: DateKeyView, entries: Seq<EntryView>, n: int) -> Seq<
    EntityRowIdView,
>
    decreases n,
{
    if n <= 0 {
        Seq::empty()
    } else {
        let e = entries[n - 1];
        entry_names(day, entries, n - 1).push(
            EntityRowIdView { date: Some(day), time: Some(e.time.key), position: None },
        ) + Seq::new(
            e.blocks.len(),
            |i: int|
                EntityRowIdView {
                    date: Some(day),
                    time: Some(e.time.key),
                    position: Some(i as usize),
                },
        )
    }
}

/// The names of a session, of its entries and of their blocks.
pub open spec fn session_names(s: SessionModel) -> Seq<EntityRowIdView> {
    seq![EntityRowIdView { date: Some(s.date.key), time: None, position: None }] + entry_names(
        s.date.key,
        s.entries,
        s.entries.len() as int,
    )
}

impl SessionRows {
    /// The rows of a session: the row of its day, one row for each entry,
    /// and the names of the session, of its entries and of their blocks.
    pub fn from_session(value: Session) -> (r: SessionRows)
        ensures
            r.dayblurb@ == (SessionRowView {
                entity_id: 0,
                day: day_text(value@.date.key),
                title: Some(value@.date.title),
                category: None,
                blurb: None,
            }),
            log_views(r.logs@) == Seq::new(
                value@.entries.len(),
                |i: int| log_of(value@.date.key, value@.entries[i]),
            ),
            name_views(r.entities@) == session_names(value@),
            r.blocks@.len() == 0,
            r.connections@.len() == 0,
    {
        let date = &value.date.key;
        let ghost day = date@;
        let ghost all = value@.entries;
        let dayblurb = SessionRow {
            entity_id: 0,
            day: date.day_string(),
            title: Some(value.date.title.clone()),
            category: None,
            blurb: None,
        };
        let mut entities: Vec<EntityRow> = Vec::new();
        let mut logs: Vec<EntryRow> = Vec::new();
        let head = EntityRow {
            uuid: EntityRowId { date: Some(date.clone()), time: None, position: None },
        };
        entities.push(head);
        let ghost first = seq![EntityRowIdView { date: Some(day), time: None, position: None }];
        assert(name_views(entities@) =~= first + entry_names(day, all, 0));
        let n: usize = value.entries.len();
        let mut i: usize = 0;
        while i < n
            invariant
                n == value.entries@.len(),
                i <= n,
                day == date@,
                all == value@.entries,
                first == seq![EntityRowIdView { date: Some(day), time: None, position: None }],
                log_views(logs@) == Seq::new(i as nat, |j: int| log_of(day, all[j])),
                name_views(entities@) == first + entry_names(day, all, i as int),
            decreases n - i,
        {
            let e = &value.entries[i];
            assert(all[i as int] == e@);
            let ghost logs_before = log_views(logs@);
            let row = EntryRow {
                entity_id: 0,
                day: date.day_string(),
                time: e.time.key.to_text(),
                title: e.time.title.clone(),
                category: None,
                nblocks: 0,
                top_block: None,
                position: 0,
            };
            logs.push(row);
            assert(log_views(logs@) =~= logs_before.push(log_of(day, e@)));
            let ghost names_before = name_views(entities@);
            let ghost own = EntityRowIdView { date: Some(day), time: Some(e.time.key), position: None };
            entities.push(
                EntityRow {
                    uuid: EntityRowId {
                        date: Some(date.clone()),
                        time: Some(e.time.key),
                        position: None,
                    },
                },
            );
            assert(name_views(entities@) =~= names_before.push(own));
            let m: usize = e.blocks.len();
            let mut k: usize = 0;
            while k < m
                invariant
                    m == e.blocks@.len(),
                    k <= m,
                    day == date@,
                    name_views(entities@) == names_before.push(own) + Seq::new(
                        k as nat,
                        |b: int|
                            EntityRowIdView {
                                date: Some(day),
                                time: Some(e.time.key),
                                position: Some(b as usize),
                            },
                    ),
                decreases m - k,
            {
                let ghost before = name_views(entities@);
                entities.push(
                    EntityRow {
                        uuid: EntityRowId {
                            date: Some(date.clone()),
                            time: Some(e.time.key),
                            position: Some(k),
                        },
                    },
                );
                assert(name_views(entities@) =~= before.push(
                    EntityRowIdView {
                        date: Some(day),
                        time: Some(e.time.key),
                        position: Some(k),
                    },
                ));
                k += 1;
                assert(name_views(entities@) =~= names_before.push(own) + Seq::new(
                    k as nat,
                    |b: int|
                        EntityRowIdView {
                            date: Some(day),
                            time: Some(e.time.key),
                            position: Some(b as usize),
                        },
                ));
            }
            i += 1;
            assert(log_views(logs@) =~= Seq::new(i as nat, |j: int| log_of(day, all[j])));
            assert(name_views(entities@) =~= first + entry_names(day, all, i as int));
        }
        SessionRows { dayblurb, logs, blocks: Vec::new(), entities, connections: Vec::new() }
    }
}

/// The entity at the place `i`, if there is one.
pub open spec fn entity_at(entities: Seq<Entity>, i: usize) -> Option<Entity> {
    if i < entities.len() {
        Some(entities[i as int])
    } else {
        None
    }
}

/// The row of the entry `node` of the session `session`, which stands at
/// `position` among the entries of the session: the day and category come
/// from the entity at the place of the session, the time and title from the
/// entity at the place of the entry; where no entity of that kind is there,
/// they are empty.
pub open spec fn row_of(
    entities: Seq<Entity>,
    session: usize,
    node: EntryNodeView,
    position: usize,
) -> EntryRowView {
    EntryRowView {
        entity_id: node.entry,
        day: match entity_at(entities, session) {
            Some(Entity::Session(date)) => date_text(date.key@),
            _ => Seq::empty(),
        },
        category: match entity_at(entities, session) {
            Some(Entity::Session(date)) => date.key@.context,
            _ => None,
        },
        time: match entity_at(entities, node.entry) {
            Some(Entity::Entry(time)) => time_text(time.key),
            _ => Seq::empty(),
        },
        title: match entity_at(entities, node.entry) {
            Some(Entity::Entry(time)) => time.title@,
            _ => Seq::empty(),
        },
        nblocks: node.blocks.len() as usize,
        top_block: if node.blocks.len() > 0 {
            Some(node.blocks[0])
        } else {
            None
        },
        position,
    }
}

impl EntryRow {
    /// The row of the entry `entry_node` of the session `session_node`,
    /// which stands at `position` among the entries of the session.
    pub fn from_node(
        entity_list: &EntityList,
        session_node: &SessionNode,
        entry_node: &EntryNode,
        position: usize,
    ) -> (r: EntryRow)
        ensures
            r@ == row_of(entity_list.entities@, session_node.session.0, entry_node@, position),
    {
        let entity_id = entry_node.entry.0;
        let count: usize = entity_list.entities.len();
        let session = if session_node.session.0 < count {
            entity_list.get_session(session_node.session)
        } else {
            None
        };
        let entry = if entry_node.entry.0 < count {
            entity_list.get_entry(entry_node.entry)
        } else {
            None
        };
        let (day, category) = match session {
            Some(date) => (
                date.key.to_text(),
                match &date.key.context {
                    Some(c) => Some(c.clone()),
                    None => None,
                },
            ),
            None => (String::new(), None),
        };
        let (time, title) = match entry {
            Some(time) => (time.key.to_text(), time.title.clone()),
            None => (String::new(), String::new()),
        };
        let nblocks = entry_node.blocks.len();
        let top_block = if entry_node.blocks.len() > 0 {
            Some(entry_node.blocks[0].0)
        } else {
            None
        };
        EntryRow { entity_id, day, time, title, nblocks, top_block, category, position }
    }
}

/// Whether the row of a block is blank.
pub open spec fn blank_block(b: BlockRow) -> bool {
    b.entity_id == 0 && b.parent_id == 0 && b.position == 0 && b.content@.len() == 0
}

/// Whether the row of a connection is blank.
pub open spec fn blank_connection(c: EntityConnectionsRow) -> bool {
    c.entity_id == 0 && c.node@.len() == 0
}

/// Whether the row of an entity is blank.
pub open spec fn blank_entity(e: EntityRow) -> bool {
    e@ == (EntityRowIdView { date: None, time: None, position: None })
}

/// The number of the blocks of the first `n` entries.
pub open spec fn blocks_in(entries: Seq<EntryNode>, n: int) -> nat
    decreases n,
{
    if n <= 0 {
        0
    } else {
        blocks_in(entries, n - 1) + entries[n - 1].blocks@.len()
    }
}

/// The number of the paths that the entities with the first `n` numbers
/// are connected to.
pub open spec fn paths_in(connections: Map<EntityId, Lines>, n: int) -> nat
    decreases n,
{
    if n <= 0 {
        0
    } else {
        paths_in(connections, n - 1) + lines_at(connections, (n - 1) as usize).len()
    }
}

impl SessionRows {
    /// The rows of a session of the tree: one row for each of its entries,
    /// and one blank row each for every block of its entries, for every
    /// entity of the list, and for every path that an entity is connected
    /// to.
    pub fn from_tree(entity_list: &EntityList, session_node: &SessionNode) -> (r: SessionRows)
        ensures
            log_views(r.logs@) == Seq::new(
                session_node.entries@.len(),
                |i: int|
                    row_of(
                        entity_list.entities@,
                        session_node.session.0,
                        session_node.entries@[i]@,
                        i as usize,
                    ),
            ),
            r.blocks@.len() == blocks_in(session_node.entries@, session_node.entries@.len() as int),
            forall|i: int| 0 <= i < r.blocks@.len() ==> blank_block(#[trigger] r.blocks@[i]),
            r.entities@.len() == entity_list.entities@.len(),
            forall|i: int| 0 <= i < r.entities@.len() ==> blank_entity(#[trigger] r.entities@[i]),
            r.connections@.len() == paths_in(
                entity_list@.connections,
                entity_list.entities@.len() as int,
            ),
            forall|i: int|
                0 <= i < r.connections@.len() ==> blank_connection(#[trigger] r.connections@[i]),
            r.dayblurb@ == (SessionRowView {
                entity_id: 0,
                day: Seq::empty(),
                title: None,
                category: None,
                blurb: None,
            }),
    {
        let mut logs: Vec<EntryRow> = Vec::new();
        let mut blocks: Vec<BlockRow> = Vec::new();
        let n: usize = session_node.entries.len();
        let mut i: usize = 0;
        while i < n
            invariant
                n == session_node.entries@.len(),
                i <= n,
                log_views(logs@) == Seq::new(
                    i as nat,
                    |j: int|
                        row_of(
                            entity_list.entities@,
                            session_node.session.0,
                            session_node.entries@[j]@,
                            j as usize,
                        ),
                ),
                blocks@.len() == blocks_in(session_node.entries@, i as int),
                forall|j: int| 0 <= j < blocks@.len() ==> blank_block(#[trigger] blocks@[j]),
            decreases n - i,
        {
            let e = &session_node.entries[i];
            let ghost before = log_views(logs@);
            let row = EntryRow::from_node(entity_list, session_node, e, i);
            logs.push(row);
            assert(log_views(logs@) =~= before.push(row@));
            let m: usize = e.blocks.len();
            let mut k: usize = 0;
            while k < m
                invariant
                    m == e.blocks@.len(),
                    k <= m,
                    blocks@.len() == blocks_in(session_node.entries@, i as int) + k,
                    forall|j: int| 0 <= j < blocks@.len() ==> blank_block(#[trigger] blocks@[j]),
                decreases m - k,
            {
                blocks.push(BlockRow::default());
                k += 1;
            }
            i += 1;
            assert(log_views(logs@) =~= Seq::new(
                i as nat,
                |j: int|
                    row_of(
                        entity_list.entities@,
                        session_node.session.0,
                        session_node.entries@[j]@,
                        j as usize,
                    ),
            ));
        }
        let mut entities: Vec<EntityRow> = Vec::new();
        let mut connections: Vec<EntityConnectionsRow> = Vec::new();
        let count: usize = entity_list.entities.len();
        let mut id: usize = 0;
        while id < count
            invariant
                count == entity_list.entities@.len(),
                id <= count,
                entities@.len() == id,
                forall|j: int| 0 <= j < entities@.len() ==> blank_entity(#[trigger] entities@[j]),
                connections@.len() == paths_in(entity_list@.connections, id as int),
                forall|j: int|
                    0 <= j < connections@.len() ==> blank_connection(#[trigger] connections@[j]),
            decreases count - id,
        {
            entities.push(EntityRow::default());
            match entity_list.connections.get(&id) {
                Some(nodes) => {
                    let m: usize = nodes.len();
                    assert(lines_at(entity_list@.connections, id).len() == m) by {
                        assert(entity_list@.connections[id] == texts(nodes@));
                    }
                    let mut k: usize = 0;
                    while k < m
                        invariant
                            k <= m,
                            connections@.len() == paths_in(entity_list@.connections, id as int) + k,
                            forall|j: int|
                                0 <= j < connections@.len() ==> blank_connection(
                                    #[trigger] connections@[j],
                                ),
                        decreases m - k,
                    {
                        connections.push(EntityConnectionsRow::default());
                        k += 1;
                    }
                },
                None => {},
            }
            id += 1;
        }
        SessionRows { logs, blocks, entities, connections, dayblurb: SessionRow::default() }
    }
}

impl From<Session> for SessionRows {
    fn from(value: Session) -> (r: SessionRows) {
        SessionRows::from_session(value)
    }
}

impl FromSpecImpl<Session> for SessionRows {
    open spec fn obeys_from_spec() -> bool {
        false
    }

    open spec fn from_spec(value: Session) -> SessionRows {
        arbitrary()
    }
}

impl<'a> From<(&'a EntityList, &'a SessionNode)> for SessionRows {
    fn from(value: (&'a EntityList, &'a SessionNode)) -> (r: SessionRows) {
        SessionRows::from_tree(value.0, value.1)
    }
}

impl<'a> FromSpecImpl<(&'a EntityList, &'a SessionNode)> for SessionRows {
    open spec fn obeys_from_spec() -> bool {
        false
    }

    open spec fn from_spec(value: (&'a EntityList, &'a SessionNode)) -> SessionRows {
        arbitrary()
    }
}

impl<'a> From<(&'a EntityList, &'a SessionNode, &'a EntryNode, usize)> for EntryRow {
    fn from(value: (&'a EntityList, &'a SessionNode, &'a EntryNode, usize)) -> (r: EntryRow) {
        EntryRow::from_node(value.0, value.1, value.2, value.3)
    }
}

impl<'a> FromSpecImpl<(&'a EntityList, &'a SessionNode, &'a EntryNode, usize)> for EntryRow {
    open spec fn obeys_from_spec() -> bool {
        false
    }

    open spec fn from_spec(
        value: (&'a EntityList, &'a SessionNode, &'a EntryNode, usize),
    ) -> EntryRow {
        arbitrary()
    }
}

impl From<&DateKey> for String {
    fn from(date: &DateKey) -> (r: String) {
        date.to_text()
    }
}

impl FromSpecImpl<&DateKey> for String {
    open spec fn obeys_from_spec() -> bool {
        false
    }

    open spec fn from_spec(date: &DateKey) -> String {
        arbitrary()
    }
}

impl From<&TimeKey> for String {
    fn from(time: &TimeKey) -> (r: String) {
        time.to_text()
    }
}

impl FromSpecImpl<&TimeKey> for String {
    open spec fn obeys_from_spec() -> bool {
        false
    }

    open spec fn from_spec(time: &TimeKey) -> String {
        arbitrary()
    }
}

impl From<&EntityRow> for String {
    fn from(row: &EntityRow) -> (r: String) {
        row.to_text()
    }
}

impl FromSpecImpl<&EntityRow> for String {
    open spec fn obeys_from_spec() -> bool {
        false
    }

    open spec fn from_spec(row: &EntityRow) -> String {
        arbitrary()
    }
}

} // verus!
