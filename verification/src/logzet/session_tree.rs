//! The sessions of a journal as a tree of places in the list of entities.

use crate::logzet::entity::{entity_views, BlockIndex, Entity, EntryIndex, SessionIndex};
use crate::logzet::session::{grouped, no_sessions, SessionBuilder};
use crate::logzet::{
    pair_views, BlockData, Date, DateKey, DateMap, DateView, EntityId, EntryItem, SessionItem,
    SessionView, SessionWrapper, TextBlockView, Time, TimeView,
};
use vstd::prelude::*;
use vstd::std_specs::convert::FromSpecImpl;

verus! {

/// An entry: its place and the places of its blocks.
pub struct EntryNode {
    pub entry: EntryIndex,
    pub blocks: Vec<BlockIndex>,
}

/// An entry of the tree, as mathematical values.
pub struct EntryNodeView {
    pub entry: usize,
    pub blocks: Seq<usize>,
}

/// The places of a list of blocks.
pub open spec fn places(v: Seq<BlockIndex>) -> Seq<usize> {
    Seq::new(v.len(), |i: int| v[i].0)
}

impl View for EntryNode {
    type V = EntryNodeView;

    open spec fn view(&self) -> EntryNodeView {
        EntryNodeView { entry: self.entry.0, blocks: places(self.blocks@) }
    }
}

impl Default for EntryNode {
    fn default() -> (r: EntryNode)
        ensures
            r@ == (EntryNodeView { entry: 0, blocks: Seq::empty() }),
    {
        let r = EntryNode { entry: EntryIndex(0), blocks: Vec::new() };
        assert(r@.blocks =~= Seq::empty());
        r
    }
}

impl EntryItem for EntryNode {
    /// The place of the entry, and no block yet.
    open spec fn opened(time: TimeView, id: EntityId) -> EntryNodeView {
        EntryNodeView { entry: id, blocks: Seq::empty() }
    }

    /// The place of the block is the number that it carries.
    open spec fn with_block(v: EntryNodeView, block: TextBlockView) -> EntryNodeView {
        EntryNodeView { blocks: v.blocks.push(block.uuid), ..v }
    }

    fn open(id: EntityId, time: &Time) -> (r: Self) {
        let r = EntryNode { entry: EntryIndex(id), blocks: Vec::new() };
        assert(r@.blocks =~= Seq::empty());
        r
    }

    fn append_block(&mut self, block: &BlockData) {
        let ghost before = places(self.blocks@);
        let id = match block {
            BlockData::Text(text) => text.uuid,
        };
        self.blocks.push(BlockIndex(id));
        assert(places(self.blocks@) =~= before.push(id));
    }
}

/// A session: its place, its entries in the order of their times, and the
/// places of the blocks that stand outside every entry.
pub struct SessionNode {
    pub session: SessionIndex,
    pub entries: Vec<EntryNode>,
    pub blocks: Vec<BlockIndex>,
}

/// A session of the tree, as mathematical values.
pub struct SessionNodeView {
    pub session: usize,
    pub entries: Seq<EntryNodeView>,
    pub blocks: Seq<usize>,
}

/// The views of a list of entries.
pub open spec fn entry_views(v: Seq<EntryNode>) -> Seq<EntryNodeView> {
    Seq::new(v.len(), |i: int| v[i]@)
}

impl View for SessionNode {
    type V = SessionNodeView;

    open spec fn view(&self) -> SessionNodeView {
        SessionNodeView {
            session: self.session.0,
            entries: entry_views(self.entries@),
            blocks: places(self.blocks@),
        }
    }
}

impl Default for SessionNode {
    fn default() -> (r: SessionNode)
        ensures
            r@ == (SessionNodeView { session: 0, entries: Seq::empty(), blocks: Seq::empty() }),
    {
        let r = SessionNode { session: SessionIndex(0), entries: Vec::new(), blocks: Vec::new() };
        assert(r@.blocks =~= Seq::empty());
        assert(r@.entries =~= Seq::empty());
        r
    }
}

impl SessionItem for SessionNode {
    /// The place of the session, and nothing in it yet.
    open spec fn opened(date: DateView, id: EntityId) -> SessionNodeView {
        SessionNodeView { session: id, entries: Seq::empty(), blocks: Seq::empty() }
    }

    open spec fn takes_blocks() -> bool {
        true
    }

    open spec fn with_block(v: SessionNodeView, block: TextBlockView) -> SessionNodeView {
        SessionNodeView { blocks: v.blocks.push(block.uuid), ..v }
    }

    fn open(id: EntityId, date: &Date) -> (r: Self) {
        let r = SessionNode { session: SessionIndex(id), entries: Vec::new(), blocks: Vec::new() };
        assert(r@.blocks =~= Seq::empty());
        assert(r@.entries =~= Seq::empty());
        r
    }

    fn append_block(&mut self, block: &BlockData) -> (r: bool) {
        let ghost before = places(self.blocks@);
        let id = match block {
            BlockData::Text(text) => text.uuid,
        };
        self.blocks.push(BlockIndex(id));
        assert(places(self.blocks@) =~= before.push(id));
        true
    }
}

/// The sessions of the entities as a tree of places, in the order of their
/// days. Every entity has to have a place: an entry needs an open session.
pub fn entities_to_map(entities: &[Entity]) -> (r: DateMap<EntryNode, SessionNode>)
    requires
        grouped::<EntryNode, SessionNode>(no_sessions(), entity_views(entities@)).is_some(),
    ensures
        pair_views(r@) == grouped::<EntryNode, SessionNode>(
            no_sessions(),
            entity_views(entities@),
        ).unwrap().sessions,
{
    SessionBuilder::<EntryNode, SessionNode>::new().process(entities).build()
}

/// The sessions of the entities as a tree of places; `None` if an entry
/// stands before every session.
pub fn try_entities_to_map(entities: &[Entity]) -> (r: Option<DateMap<EntryNode, SessionNode>>)
    ensures
        match grouped::<EntryNode, SessionNode>(no_sessions(), entity_views(entities@)) {
            Some(g) => r matches Some(m) && pair_views(m@) == g.sessions,
            None => r.is_none(),
        },
{
    match SessionBuilder::<EntryNode, SessionNode>::new().try_process(entities) {
        Some(b) => Some(b.build()),
        None => None,
    }
}

/// The session of the tree that a grouped session makes: its place and
/// blocks, and its entries without their times.
pub open spec fn tree_of(s: SessionView<EntryNodeView, SessionNodeView>) -> SessionNodeView {
    SessionNodeView {
        session: s.data.session,
        entries: Seq::new(s.entries.len(), |i: int| s.entries[i].1),
        blocks: s.data.blocks,
    }
}

impl SessionNode {
    /// The session of the tree that a grouped session makes.
    pub fn from_pair(value: (DateKey, SessionWrapper<EntryNode, SessionNode>)) -> (r: SessionNode)
        ensures
            r@ == tree_of(value.1@),
    {
        let (_date, data) = value;
        let ghost want = tree_of(data@);
        let mut entries: Vec<EntryNode> = Vec::new();
        let mut inner = data.entries.inner;
        let ghost all = pair_views(inner@);
        let n: usize = inner.len();
        let mut i: usize = 0;
        while i < n
            invariant
                n == inner@.len(),
                i <= n,
                all.len() == n,
                forall|j: int| i <= j < n ==> (#[trigger] inner@[j]).1@ == all[j].1,
                entry_views(entries@) == Seq::new(i as nat, |j: int| all[j].1),
            decreases n - i,
        {
            let ghost before = entry_views(entries@);
            let ghost item = inner@[i as int].1@;
            let slot = &mut inner[i];
            let mut blocks: Vec<BlockIndex> = Vec::new();
            std::mem::swap(&mut blocks, &mut slot.1.blocks);
            let node = EntryNode { entry: slot.1.entry, blocks };
            assert(node@ == item);
            entries.push(node);
            assert(entry_views(entries@) =~= before.push(item));
            i += 1;
            assert(entry_views(entries@) =~= Seq::new(i as nat, |j: int| all[j].1));
        }
        let r = SessionNode { session: data.data.session, entries, blocks: data.data.blocks };
        assert(r@.entries =~= want.entries);
        r
    }
}

impl From<(DateKey, SessionWrapper<EntryNode, SessionNode>)> for SessionNode {
    fn from(value: (DateKey, SessionWrapper<EntryNode, SessionNode>)) -> (r: SessionNode) {
        SessionNode::from_pair(value)
    }
}

impl FromSpecImpl<(DateKey, SessionWrapper<EntryNode, SessionNode>)> for SessionNode {
    open spec fn obeys_from_spec() -> bool {
        false
    }

    open spec fn from_spec(value: (DateKey, SessionWrapper<EntryNode, SessionNode>)) -> SessionNode {
        arbitrary()
    }
}

} // verus!
