//! The grouping of the entities of a journal into sessions and entries.

use crate::logzet::entity::{entity_views, Entity, EntityList, EntityView};
use crate::logzet::entity::{entities_of, statements_to_entities};
use crate::logzet::statement::{statements, Statement};
use crate::logzet::{
    key_index, pair_views, placed, Block, BlockData, Date, DateKey, DateKeyView,
    DateMap, DateView, EntityId, Entry, EntryData, EntryDataView, EntryItem, Session,
    SessionInfo, SessionInfoView, SessionItem, SessionMap, SessionView, SessionWrapper,
    TextBlockView, Time, TimeKey, TimeView,
};
use vstd::prelude::*;

verus! {

/// Groups entities into sessions: it remembers the session and the entry
/// that the next block belongs to.
pub struct SessionBuilder<T, U> {
    pub session_map: SessionMap<T, U>,
    pub current_session: Option<DateKey>,
    pub current_entry: Option<TimeKey>,
}

/// A builder of sessions, as mathematical values.
#[verifier::ext_equal]
pub struct Grouping<TV, UV> {
    /// The sessions in the order of their days.
    pub sessions: Seq<(DateKeyView, SessionView<TV, UV>)>,
    /// The day of the session that is open.
    pub current_session: Option<DateKeyView>,
    /// The time of the entry that is open.
    pub current_entry: Option<TimeKey>,
}

impl<T: View, U: View> View for SessionBuilder<T, U> {
    type V = Grouping<T::V, U::V>;

    open spec fn view(&self) -> Grouping<T::V, U::V> {
        Grouping {
            sessions: pair_views(self.session_map.inner@),
            current_session: match self.current_session {
                Some(k) => Some(k@),
                None => None,
            },
            current_entry: self.current_entry,
        }
    }
}

/// The grouping with a new session headed by `date`: it takes the place of
/// a session of the same day and context, and no entry is open in it.
pub open spec fn with_session<T: EntryItem, U: SessionItem>(
    g: Grouping<T::V, U::V>,
    id: EntityId,
    date: DateView,
) -> Grouping<T::V, U::V> {
    Grouping {
        sessions: placed::<DateKey, SessionView<T::V, U::V>>(
            g.sessions,
            date.key,
            SessionView { entries: Seq::empty(), data: U::opened(date, id) },
        ),
        current_session: Some(date.key),
        current_entry: None,
    }
}

/// The grouping with a new entry headed by `time` in the open session;
/// `None` if no session is open.
pub open spec fn with_entry<T: EntryItem, U: SessionItem>(
    g: Grouping<T::V, U::V>,
    id: EntityId,
    time: TimeView,
) -> Option<Grouping<T::V, U::V>> {
    match g.current_session {
        None => None,
        Some(day) => {
            let i = key_index(g.sessions, day, 0);
            if i < g.sessions.len() {
                let s = g.sessions[i].1;
                Some(
                    Grouping {
                        sessions: g.sessions.update(
                            i,
                            (
                                g.sessions[i].0,
                                SessionView {
                                    entries: placed::<TimeKey, T::V>(
                                        s.entries,
                                        time.key,
                                        T::opened(time, id),
                                    ),
                                    data: s.data,
                                },
                            ),
                        ),
                        current_entry: Some(time.key),
                        ..g
                    },
                )
            } else {
                Some(g)
            }
        },
    }
}

/// The grouping with one more block, in the open entry or, where none is
/// open, in the open session; `None` if no session is open, if the open
/// session or entry is not there, or if the block would have to stand in a
/// session that takes none.
pub open spec fn with_block<T: EntryItem, U: SessionItem>(
    g: Grouping<T::V, U::V>,
    block: TextBlockView,
) -> Option<Grouping<T::V, U::V>> {
    match g.current_session {
        None => None,
        Some(day) => {
            let i = key_index(g.sessions, day, 0);
            if i >= g.sessions.len() {
                None
            } else {
                let s = g.sessions[i].1;
                match g.current_entry {
                    Some(time) => {
                        let j = key_index(s.entries, time, 0);
                        if j >= s.entries.len() {
                            None
                        } else {
                            Some(
                                Grouping {
                                    sessions: g.sessions.update(
                                        i,
                                        (
                                            g.sessions[i].0,
                                            SessionView {
                                                entries: s.entries.update(
                                                    j,
                                                    (
                                                        s.entries[j].0,
                                                        T::with_block(s.entries[j].1, block),
                                                    ),
                                                ),
                                                data: s.data,
                                            },
                                        ),
                                    ),
                                    ..g
                                },
                            )
                        }
                    },
                    None => if U::takes_blocks() {
                        Some(
                            Grouping {
                                sessions: g.sessions.update(
                                    i,
                                    (
                                        g.sessions[i].0,
                                        SessionView {
                                            entries: s.entries,
                                            data: U::with_block(s.data, block),
                                        },
                                    ),
                                ),
                                ..g
                            },
                        )
                    } else {
                        None
                    },
                }
            }
        },
    }
}

/// The grouping with the entity `e`, which has the number `id`.
pub open spec fn with_entity<T: EntryItem, U: SessionItem>(
    g: Grouping<T::V, U::V>,
    id: EntityId,
    e: EntityView,
) -> Option<Grouping<T::V, U::V>> {
    match e {
        EntityView::Session(date) => Some(with_session::<T, U>(g, id, date)),
        EntityView::Entry(time) => with_entry::<T, U>(g, id, time),
        EntityView::Block(block) => with_block::<T, U>(g, block),
    }
}

/// The grouping with the first `n` of `entities`, each numbered by its
/// place.
pub open spec fn grouped_upto<T: EntryItem, U: SessionItem>(
    g: Grouping<T::V, U::V>,
    entities: Seq<EntityView>,
    n: int,
) -> Option<Grouping<T::V, U::V>>
    decreases n,
{
    if n <= 0 {
        Some(g)
    } else {
        match grouped_upto::<T, U>(g, entities, n - 1) {
            Some(h) => with_entity::<T, U>(h, (n - 1) as usize, entities[n - 1]),
            None => None,
        }
    }
}

/// The grouping with all of `entities`.
pub open spec fn grouped<T: EntryItem, U: SessionItem>(
    g: Grouping<T::V, U::V>,
    entities: Seq<EntityView>,
) -> Option<Grouping<T::V, U::V>> {
    grouped_upto::<T, U>(g, entities, entities.len() as int)
}

/// A grouping without sessions.
pub open spec fn no_sessions<TV, UV>() -> Grouping<TV, UV> {
    Grouping { sessions: Seq::empty(), current_session: None, current_entry: None }
}

/// Once an entity could not be taken, no grouping comes about any more.
pub proof fn lemma_grouped_stays_none<T: EntryItem, U: SessionItem>(
    g: Grouping<T::V, U::V>,
    entities: Seq<EntityView>,
    m: int,
    n: int,
)
    requires
        0 <= m <= n,
        grouped_upto::<T, U>(g, entities, m).is_none(),
    ensures
        grouped_upto::<T, U>(g, entities, n).is_none(),
    decreases n,
{
    if m < n {
        lemma_grouped_stays_none::<T, U>(g, entities, m, n - 1);
    }
}

impl<T: EntryItem, U: SessionItem> SessionBuilder<T, U> {
    /// A builder without sessions.
    pub fn new() -> (r: Self)
        ensures
            r@ == no_sessions::<T::V, U::V>(),
    {
        let r = SessionBuilder {
            current_session: None,
            current_entry: None,
            session_map: SessionMap::new(),
        };
        assert(r@.sessions =~= Seq::empty());
        r
    }

    /// The sessions, in the order of their days.
    pub fn build(self) -> (r: DateMap<T, U>)
        ensures
            pair_views(r@) == self@.sessions,
    {
        self.session_map.inner
    }

    /// Opens the session headed by `date`, which has the number `id`.
    pub fn insert_session(&mut self, id: usize, date: &Date)
        ensures
            final(self)@ == with_session::<T, U>(old(self)@, id, date@),
    {
        self.session_map.insert(id, date);
        self.current_session = Some(date.key.clone());
        self.current_entry = None;
    }

    /// Opens the entry headed by `time`, which has the number `id`, in the
    /// open session; `false` if no session is open, and then nothing has
    /// changed.
    pub fn insert_entry(&mut self, id: usize, time: &Time) -> (r: bool)
        ensures
            match with_entry::<T, U>(old(self)@, id, time@) {
                Some(g) => r && final(self)@ == g,
                None => !r && final(self)@ == old(self)@,
            },
    {
        let i = match &self.current_session {
            Some(day) => self.session_map.get_session(day),
            None => { return false; },
        };
        if i < self.session_map.inner.len() {
            let ghost before = pair_views(self.session_map.inner@);
            let ghost key = self.session_map.inner@[i as int].0@;
            let ghost session = self.session_map.inner@[i as int].1@;
            assert(before[i as int] == (key, session));
            let slot = &mut self.session_map.inner[i];
            slot.1.entries.insert(id, time);
            self.current_entry = Some(time.key);
            proof {
                let want = with_entry::<T, U>(old(self)@, id, time@).unwrap();
                assert(pair_views(self.session_map.inner@) =~= want.sessions);
                assert(self@ =~= want);
            }
        }
        true
    }

    /// Adds a block to the open entry or, where none is open, to the open
    /// session; `false` if it has no place, and then nothing has changed.
    pub fn insert_block(&mut self, block: &BlockData) -> (r: bool)
        ensures
            match with_block::<T, U>(old(self)@, block@) {
                Some(g) => r && final(self)@ == g,
                None => !r && final(self)@ == old(self)@,
            },
    {
        let i = match &self.current_session {
            Some(day) => self.session_map.get_session(day),
            None => { return false; },
        };
        if i >= self.session_map.inner.len() {
            return false;
        }
        let ghost before = pair_views(self.session_map.inner@);
        let ghost key = self.session_map.inner@[i as int].0@;
        let ghost session = self.session_map.inner@[i as int].1@;
        assert(before[i as int] == (key, session));
        let slot = &mut self.session_map.inner[i];
        let taken = match self.current_entry {
            Some(time) => slot.1.entries.append_block(&time, block),
            None => slot.1.data.append_block(block),
        };
        proof {
            if taken {
                let want = with_block::<T, U>(old(self)@, block@).unwrap();
                assert(pair_views(self.session_map.inner@) =~= want.sessions);
                assert(self@ =~= want);
            } else {
                assert(pair_views(self.session_map.inner@) =~= before);
                assert(self@ =~= old(self)@);
            }
        }
        taken
    }

    /// Takes the entities in their order, each numbered by its place;
    /// `None` if one of them has no place.
    pub fn try_process(self, entities: &[Entity]) -> (r: Option<Self>)
        ensures
            match grouped::<T, U>(self@, entity_views(entities@)) {
                Some(g) => r matches Some(b) && b@ == g,
                None => r.is_none(),
            },
    {
        let mut builder = self;
        let n: usize = entities.len();
        let mut id: usize = 0;
        let ghost all = entity_views(entities@);
        while id < n
            invariant
                n == entities@.len(),
                id <= n,
                all == entity_views(entities@),
                grouped_upto::<T, U>(self@, all, id as int) == Some(builder@),
            decreases n - id,
        {
            assert(all[id as int] == entities@[id as int]@);
            let taken = match &entities[id] {
                Entity::Session(date) => {
                    builder.insert_session(id, date);
                    true
                },
                Entity::Entry(time) => builder.insert_entry(id, time),
                Entity::Block(block) => builder.insert_block(block),
            };
            if !taken {
                proof {
                    lemma_grouped_stays_none::<T, U>(self@, all, id + 1, n as int);
                }
                return None;
            }
            id += 1;
        }
        Some(builder)
    }

    /// Takes the entities in their order, each numbered by its place. Every
    /// entity has to have a place: an entry needs an open session, and a
    /// block an open entry or a session that takes blocks.
    pub fn process(self, entities: &[Entity]) -> (r: Self)
        requires
            grouped::<T, U>(self@, entity_views(entities@)).is_some(),
        ensures
            r@ == grouped::<T, U>(self@, entity_views(entities@)).unwrap(),
    {
        match self.try_process(entities) {
            Some(b) => b,
            None => Self::new(),
        }
    }
}

/// The sessions of the entities with their entries and blocks, in the order
/// of their days.
pub fn entities_to_session_map(entities: Vec<Entity>) -> (r: DateMap<EntryData, SessionInfo>)
    requires
        grouped::<EntryData, SessionInfo>(no_sessions(), entity_views(entities@)).is_some(),
    ensures
        pair_views(r@) == grouped::<EntryData, SessionInfo>(
            no_sessions(),
            entity_views(entities@),
        ).unwrap().sessions,
{
    SessionBuilder::<EntryData, SessionInfo>::new().process(entities.as_slice()).build()
}

/// The sessions of a list of entities.
pub fn build_session_map(entities: EntityList) -> (r: DateMap<EntryData, SessionInfo>)
    requires
        grouped::<EntryData, SessionInfo>(no_sessions(), entities@.entities).is_some(),
    ensures
        pair_views(r@) == grouped::<EntryData, SessionInfo>(
            no_sessions(),
            entities@.entities,
        ).unwrap().sessions,
{
    entities_to_session_map(entities.entities)
}

/// An entry with the kinds of its blocks, as mathematical values.
pub struct EntryView {
    pub time: TimeView,
    pub blocks: Seq<Block>,
}

impl View for Entry {
    type V = EntryView;

    open spec fn view(&self) -> EntryView {
        EntryView { time: self.time@, blocks: self.blocks@ }
    }
}

/// A session with its entries, as mathematical values.
pub struct SessionModel {
    pub date: DateView,
    pub entries: Seq<EntryView>,
}

/// The views of a list of entries.
pub open spec fn entries_view(v: Seq<Entry>) -> Seq<EntryView> {
    Seq::new(v.len(), |i: int| v[i]@)
}

impl View for Session {
    type V = SessionModel;

    open spec fn view(&self) -> SessionModel {
        SessionModel { date: self.date@, entries: entries_view(self.entries@) }
    }
}

/// The views of a list of sessions.
pub open spec fn sessions_view(v: Seq<Session>) -> Seq<SessionModel> {
    Seq::new(v.len(), |i: int| v[i]@)
}

/// The entry that a time and what a session keeps of the entry make: the
/// entry carries no number, and of each block only the kind is left.
pub open spec fn entry_of(time: TimeKey, data: EntryDataView) -> EntryView {
    EntryView {
        time: TimeView { id: 0, key: time, title: data.title, tags: data.tags },
        blocks: Seq::new(data.blocks.len(), |i: int| Block::Text),
    }
}

/// The session that a day and a grouped session make.
pub open spec fn session_of(
    day: DateKeyView,
    s: SessionView<EntryDataView, SessionInfoView>,
) -> SessionModel {
    SessionModel {
        date: DateView { key: day, title: s.data.title, tags: s.data.tags },
        entries: Seq::new(s.entries.len(), |i: int| entry_of(s.entries[i].0, s.entries[i].1)),
    }
}

impl Block {
    /// The kind of a block.
    pub fn of(value: &BlockData) -> (r: Block)
        ensures
            r == Block::Text,
    {
        match value {
            BlockData::Text(_) => Block::Text,
        }
    }
}

impl Entry {
    /// The entry that a time and what a session keeps of the entry make.
    pub fn from_pair(value: &(TimeKey, EntryData)) -> (r: Entry)
        ensures
            r@ == entry_of(value.0, value.1@),
    {
        let mut blocks: Vec<Block> = Vec::new();
        let n: usize = value.1.blocks.len();
        let mut i: usize = 0;
        while i < n
            invariant
                n == value.1.blocks@.len(),
                i <= n,
                blocks@ == Seq::new(i as nat, |j: int| Block::Text),
            decreases n - i,
        {
            blocks.push(Block::of(&value.1.blocks[i]));
            i += 1;
            assert(blocks@ =~= Seq::new(i as nat, |j: int| Block::Text));
        }
        let r = Entry {
            time: Time {
                id: 0,
                key: value.0,
                title: value.1.title.clone(),
                tags: crate::dagzet::clone_lines(&value.1.tags),
            },
            blocks,
        };
        assert(r@.blocks =~= entry_of(value.0, value.1@).blocks);
        r
    }
}

impl Session {
    /// The session that a day and a grouped session make.
    pub fn from_pair(value: &(DateKey, SessionWrapper<EntryData, SessionInfo>)) -> (r: Session)
        ensures
            r@ == session_of(value.0@, value.1@),
    {
        let mut entries: Vec<Entry> = Vec::new();
        let inner = &value.1.entries.inner;
        let ghost all = pair_views(inner@);
        let n: usize = inner.len();
        let mut i: usize = 0;
        while i < n
            invariant
                n == inner@.len(),
                i <= n,
                all == pair_views(inner@),
                entries_view(entries@) == Seq::new(i as nat, |j: int| entry_of(all[j].0, all[j].1)),
            decreases n - i,
        {
            let ghost before = entries_view(entries@);
            let e = Entry::from_pair(&inner[i]);
            assert(all[i as int] == (inner@[i as int].0@, inner@[i as int].1@));
            entries.push(e);
            assert(entries_view(entries@) =~= before.push(e@));
            i += 1;
            assert(entries_view(entries@) =~= Seq::new(
                i as nat,
                |j: int| entry_of(all[j].0, all[j].1),
            ));
        }
        let r = Session {
            date: Date {
                key: value.0.clone(),
                title: value.1.data.title.clone(),
                tags: crate::dagzet::clone_lines(&value.1.data.tags),
            },
            entries,
        };
        assert(r@.entries =~= session_of(value.0@, value.1@).entries);
        r
    }
}

/// The sessions that grouped sessions make, in their order.
pub open spec fn sessions_of(
    grouped: Seq<(DateKeyView, SessionView<EntryDataView, SessionInfoView>)>,
) -> Seq<SessionModel> {
    Seq::new(grouped.len(), |i: int| session_of(grouped[i].0, grouped[i].1))
}

/// The sessions of a journal with their entries, in the order of their
/// days. Every command among the statements has to be one that can be
/// taken, every entry has to stand in a session, and every block in an
/// entry.
pub fn build_sessions(stmts: Vec<Statement>) -> (r: Vec<Session>)
    requires
        entities_of(statements(stmts@)).is_some(),
        grouped::<EntryData, SessionInfo>(
            no_sessions(),
            entities_of(statements(stmts@)).unwrap().entities,
        ).is_some(),
    ensures
        sessions_view(r@) == sessions_of(
            grouped::<EntryData, SessionInfo>(
                no_sessions(),
                entities_of(statements(stmts@)).unwrap().entities,
            ).unwrap().sessions,
        ),
{
    let entities = statements_to_entities(stmts);
    let map = build_session_map(entities);
    let mut out: Vec<Session> = Vec::new();
    let n: usize = map.len();
    let mut i: usize = 0;
    let ghost all = pair_views(map@);
    while i < n
        invariant
            n == map@.len(),
            i <= n,
            all == pair_views(map@),
            sessions_view(out@) == Seq::new(i as nat, |j: int| session_of(all[j].0, all[j].1)),
        decreases n - i,
    {
        let ghost before = sessions_view(out@);
        let s = Session::from_pair(&map[i]);
        assert(all[i as int] == (map@[i as int].0@, map@[i as int].1@));
        out.push(s);
        assert(sessions_view(out@) =~= before.push(s@));
        i += 1;
        assert(sessions_view(out@) =~= Seq::new(i as nat, |j: int| session_of(all[j].0, all[j].1)));
    }
    assert(sessions_view(out@) =~= sessions_of(all));
    out
}

} // verus!
