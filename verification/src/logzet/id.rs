//! The numbers that entities carry.

use crate::logzet::entity::{Entity, EntryIndex, SessionIndex};
use crate::logzet::session_tree::{EntryNode, SessionNode};
use crate::logzet::{BlockData, EntityId, EntryData, SessionInfo, SessionWrapper, TextBlock, Time};
use vstd::prelude::*;

verus! {

/// What can carry a number and be given one.
pub trait WithId: Sized {
    type Id;

    /// Whether the value carries a number.
    open spec fn carries_id(&self) -> bool {
        true
    }

    /// The number that the value carries.
    open spec fn carried(&self) -> Self::Id {
        arbitrary()
    }

    /// The value with the number `id`.
    open spec fn given(self, id: Self::Id) -> Self {
        arbitrary()
    }

    /// The number that the value carries.
    fn id(&self) -> (r: Self::Id)
        requires
            self.carries_id(),
        ensures
            r == self.carried(),
    ;

    /// The value with the number `id`.
    fn with_id(self, id: Self::Id) -> (r: Self)
        ensures
            r == self.given(id),
    ;
}

impl WithId for BlockData {
    type Id = EntityId;

    open spec fn carried(&self) -> EntityId {
        match self {
            BlockData::Text(text) => text.uuid,
        }
    }

    open spec fn given(self, id: EntityId) -> BlockData {
        match self {
            BlockData::Text(text) => BlockData::Text(TextBlock { uuid: id, ..text }),
        }
    }

    fn id(&self) -> (r: EntityId) {
        match self {
            BlockData::Text(text) => text.uuid,
        }
    }

    fn with_id(self, id: EntityId) -> (r: BlockData) {
        match self {
            BlockData::Text(text) => BlockData::Text(TextBlock { uuid: id, lines: text.lines }),
        }
    }
}

impl WithId for Time {
    type Id = EntityId;

    open spec fn carried(&self) -> EntityId {
        self.id
    }

    open spec fn given(self, id: EntityId) -> Time {
        Time { id, ..self }
    }

    fn id(&self) -> (r: EntityId) {
        self.id
    }

    fn with_id(self, id: EntityId) -> (r: Time) {
        Time { id, key: self.key, title: self.title, tags: self.tags }
    }
}

impl WithId for Entity {
    type Id = EntityId;

    /// A block and an entry carry a number, a session does not.
    open spec fn carries_id(&self) -> bool {
        !(self is Session)
    }

    open spec fn carried(&self) -> EntityId {
        match self {
            Entity::Block(block) => block.carried(),
            Entity::Entry(entry) => entry.carried(),
            Entity::Session(_) => 0,
        }
    }

    /// A session stays as it is.
    open spec fn given(self, id: EntityId) -> Entity {
        match self {
            Entity::Block(block) => Entity::Block(block.given(id)),
            Entity::Entry(entry) => Entity::Entry(entry.given(id)),
            Entity::Session(session) => Entity::Session(session),
        }
    }

    fn id(&self) -> (r: EntityId) {
        match self {
            Entity::Block(block) => block.id(),
            Entity::Entry(entry) => entry.id(),
            Entity::Session(_) => 0,
        }
    }

    fn with_id(self, id: EntityId) -> (r: Entity) {
        match self {
            Entity::Block(block) => Entity::Block(block.with_id(id)),
            Entity::Entry(entry) => Entity::Entry(entry.with_id(id)),
            Entity::Session(session) => Entity::Session(session),
        }
    }
}

impl<T> WithId for SessionWrapper<T, SessionInfo> {
    type Id = EntityId;

    /// A session with its title and tags keeps no number.
    open spec fn carried(&self) -> EntityId {
        0
    }

    open spec fn given(self, id: EntityId) -> Self {
        self
    }

    fn id(&self) -> (r: EntityId) {
        0
    }

    fn with_id(self, id: EntityId) -> (r: Self) {
        self
    }
}

impl WithId for EntryData {
    type Id = EntityId;

    /// An entry with its blocks keeps no number.
    open spec fn carried(&self) -> EntityId {
        0
    }

    open spec fn given(self, id: EntityId) -> Self {
        self
    }

    fn id(&self) -> (r: EntityId) {
        0
    }

    fn with_id(self, id: EntityId) -> (r: Self) {
        self
    }
}

impl<T> WithId for SessionWrapper<T, SessionNode> {
    type Id = EntityId;

    /// The place of the session.
    open spec fn carried(&self) -> EntityId {
        self.data.session.0
    }

    open spec fn given(self, id: EntityId) -> Self {
        SessionWrapper { data: SessionNode { session: SessionIndex(id), ..self.data }, ..self }
    }

    fn id(&self) -> (r: EntityId) {
        self.data.session.0
    }

    fn with_id(self, id: EntityId) -> (r: Self) {
        SessionWrapper {
            entries: self.entries,
            data: SessionNode {
                session: SessionIndex(id),
                entries: self.data.entries,
                blocks: self.data.blocks,
            },
        }
    }
}

impl WithId for EntryNode {
    type Id = EntityId;

    /// The place of the entry.
    open spec fn carried(&self) -> EntityId {
        self.entry.0
    }

    open spec fn given(self, id: EntityId) -> Self {
        EntryNode { entry: EntryIndex(id), ..self }
    }

    fn id(&self) -> (r: EntityId) {
        self.entry.0
    }

    fn with_id(self, id: EntityId) -> (r: Self) {
        EntryNode { entry: EntryIndex(id), blocks: self.blocks }
    }
}

} // verus!
