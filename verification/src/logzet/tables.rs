//! The tables of the journal as SQLite text.

use crate::logzet::rows::{
    name_text, BlockRow as InnerBlockRow, EntityConnectionsRow as InnerEntityConnectionRow,
    EntityRow, EntryRow as InnerEntryRow, SessionRows,
};
use crate::logzet::EntityId;
use crate::sqlite::{Param, ParamType, Row, SQLize, Table};
use crate::tables::{escape_quotes, laid_out, quotes_escaped};
use crate::text::{decimal, decimal_text};
use std::collections::HashMap;
use vstd::prelude::*;

verus! {

broadcast use vstd::std_specs::hash::group_hash_axioms;

/// The table of the names of the entities.
pub struct EntityTable;

impl Row<EntityTable> for EntityRow {
    /// The name of the entity between single quotes.
    open spec fn values(&self) -> Seq<char> {
        "'"@ + name_text(self@) + "'"@
    }

    fn sqlize_values(&self) -> (r: String) {
        let mut out = "'".to_owned();
        out.append(self.to_text().as_str());
        out.append("'");
        out
    }
}

impl Default for Table<EntityTable> {
    fn default() -> (r: Table<EntityTable>)
        ensures
            laid_out(r, "lz_entities"@, seq![("id"@, ParamType::Text)]),
    {
        let mut t: Table<EntityTable> = Table::new("lz_entities");
        t.add_column(&Param::new("id", ParamType::Text));
        t
    }
}

/// The table of the sessions.
pub struct SessionTable;

impl Default for Table<SessionTable> {
    fn default() -> (r: Table<SessionTable>)
        ensures
            laid_out(
                r,
                "lz_sessions"@,
                seq![
                    ("id"@, ParamType::Integer),
                    ("day"@, ParamType::Text),
                    ("title"@, ParamType::Text),
                    ("context"@, ParamType::Text),
                    ("nblocks"@, ParamType::Integer),
                    ("top_block"@, ParamType::Integer),
                ],
            ),
    {
        let mut t: Table<SessionTable> = Table::new("lz_sessions");
        t.add_column(&Param::new("id", ParamType::Integer));
        t.add_column(&Param::new("day", ParamType::Text));
        t.add_column(&Param::new("title", ParamType::Text));
        t.add_column(&Param::new("context", ParamType::Text));
        t.add_column(&Param::new("nblocks", ParamType::Integer));
        t.add_column(&Param::new("top_block", ParamType::Integer));
        t
    }
}

/// The expression for the row of the entity `entity_id`: a look-up of its
/// name where `lookup` has one, -2 where it has none, and -1 for no entity.
pub open spec fn lookup_expr(lookup: Map<EntityId, String>, entity_id: Option<EntityId>) -> Seq<
    char,
> {
    match entity_id {
        Some(id) => if lookup.contains_key(id) {
            "(SELECT rowid FROM lz_entities WHERE id IS '"@ + lookup[id]@ + "')"@
        } else {
            "-2"@
        },
        None => "-1"@,
    }
}

/// Writes the expression for the row of the entity `entity_id`.
pub fn uuid_lookup(lookup: &HashMap<EntityId, String>, entity_id: Option<EntityId>) -> (r: String)
    ensures
        r@ == lookup_expr(lookup@, entity_id),
{
    match entity_id {
        Some(id) => match lookup.get(&id) {
            Some(uuid) => {
                let mut out = "(SELECT rowid FROM lz_entities WHERE id IS '".to_owned();
                out.append(uuid.as_str());
                out.append("')");
                out
            },
            None => "-2".to_owned(),
        },
        None => "-1".to_owned(),
    }
}

/// The text of an optional text, empty where there is none.
pub open spec fn text_or_empty(s: Option<String>) -> Seq<char> {
    match s {
        Some(t) => t@,
        None => Seq::empty(),
    }
}

/// The table of the entries.
pub struct EntryTable;

/// The row of an entry, with the names of the entities.
pub struct EntryRow<'a> {
    pub inner: &'a InnerEntryRow,
    pub lookup: &'a HashMap<EntityId, String>,
}

impl<'a> Row<EntryTable> for EntryRow<'a> {
    /// The look-up of the entry, its day, title and category between single
    /// quotes, the number of its blocks, the look-up of its first block,
    /// and its place.
    open spec fn values(&self) -> Seq<char> {
        lookup_expr(self.lookup@, Some(self.inner.entity_id)) + ", '"@ + quotes_escaped(
            self.inner.day@,
        ) + "', '"@ + quotes_escaped(self.inner.title@) + "', '"@ + quotes_escaped(
            text_or_empty(self.inner.category),
        ) + "', "@ + decimal_text(self.inner.nblocks as nat) + ", "@ + lookup_expr(
            self.lookup@,
            self.inner.top_block,
        ) + ", "@ + decimal_text(self.inner.position as nat)
    }

    fn sqlize_values(&self) -> (r: String) {
        let mut out = uuid_lookup(self.lookup, Some(self.inner.entity_id));
        out.append(", '");
        out.append(escape_quotes(self.inner.day.as_str()).as_str());
        out.append("', '");
        out.append(escape_quotes(self.inner.title.as_str()).as_str());
        out.append("', '");
        let context = match &self.inner.category {
            Some(c) => escape_quotes(c.as_str()),
            None => escape_quotes(""),
        };
        proof {
            reveal_strlit("");
            assert(""@ =~= Seq::<char>::empty());
        }
        out.append(context.as_str());
        out.append("', ");
        out.append(decimal(self.inner.nblocks as u64).as_str());
        out.append(", ");
        out.append(uuid_lookup(self.lookup, self.inner.top_block).as_str());
        out.append(", ");
        out.append(decimal(self.inner.position as u64).as_str());
        out
    }
}

impl Default for Table<EntryTable> {
    fn default() -> (r: Table<EntryTable>)
        ensures
            laid_out(
                r,
                "lz_entries"@,
                seq![
                    ("id"@, ParamType::Integer),
                    ("day"@, ParamType::Text),
                    ("title"@, ParamType::Text),
                    ("context"@, ParamType::Text),
                    ("nblocks"@, ParamType::Integer),
                    ("top_block"@, ParamType::Integer),
                    ("position"@, ParamType::Integer),
                ],
            ),
    {
        let mut t: Table<EntryTable> = Table::new("lz_entries");
        t.add_column(&Param::new("id", ParamType::Integer));
        t.add_column(&Param::new("day", ParamType::Text));
        t.add_column(&Param::new("title", ParamType::Text));
        t.add_column(&Param::new("context", ParamType::Text));
        t.add_column(&Param::new("nblocks", ParamType::Integer));
        t.add_column(&Param::new("top_block", ParamType::Integer));
        t.add_column(&Param::new("position", ParamType::Integer));
        t
    }
}

/// The table of the blocks.
pub struct BlockTable;

/// The row of a block, with the names of the entities.
pub struct BlockRow<'a> {
    pub inner: &'a InnerBlockRow,
    pub lookup: &'a HashMap<EntityId, String>,
}

impl<'a> Row<BlockTable> for BlockRow<'a> {
    /// The look-ups of the block and of its parent, its content between
    /// single quotes, and its place.
    open spec fn values(&self) -> Seq<char> {
        lookup_expr(self.lookup@, Some(self.inner.entity_id)) + ", "@ + lookup_expr(
            self.lookup@,
            Some(self.inner.parent_id),
        ) + ", '"@ + quotes_escaped(self.inner.content@) + "', "@ + decimal_text(
            self.inner.position as nat,
        )
    }

    fn sqlize_values(&self) -> (r: String) {
        let mut out = uuid_lookup(self.lookup, Some(self.inner.entity_id));
        out.append(", ");
        out.append(uuid_lookup(self.lookup, Some(self.inner.parent_id)).as_str());
        out.append(", '");
        out.append(escape_quotes(self.inner.content.as_str()).as_str());
        out.append("', ");
        out.append(decimal(self.inner.position as u64).as_str());
        out
    }
}

impl Default for Table<BlockTable> {
    fn default() -> (r: Table<BlockTable>)
        ensures
            laid_out(
                r,
                "lz_blocks"@,
                seq![
                    ("id"@, ParamType::Integer),
                    ("parent"@, ParamType::Integer),
                    ("content"@, ParamType::Text),
                    ("position"@, ParamType::Integer),
                ],
            ),
    {
        let mut t: Table<BlockTable> = Table::new("lz_blocks");
        t.add_column(&Param::new("id", ParamType::Integer));
        t.add_column(&Param::new("parent", ParamType::Integer));
        t.add_column(&Param::new("content", ParamType::Text));
        t.add_column(&Param::new("position", ParamType::Integer));
        t
    }
}

/// The table of the connections of the entities to the graph.
pub struct EntityConnectionTable;

/// The row of a connection, with the names of the entities.
pub struct EntityConnectionRow<'a> {
    pub inner: &'a InnerEntityConnectionRow,
    pub lookup: &'a HashMap<EntityId, String>,
}

impl<'a> Row<EntityConnectionTable> for EntityConnectionRow<'a> {
    /// The look-up of the entity, and the path between single quotes.
    open spec fn values(&self) -> Seq<char> {
        lookup_expr(self.lookup@, Some(self.inner.entity_id)) + ", '"@ + quotes_escaped(
            self.inner.node@,
        ) + "'"@
    }

    fn sqlize_values(&self) -> (r: String) {
        let mut out = uuid_lookup(self.lookup, Some(self.inner.entity_id));
        out.append(", '");
        out.append(escape_quotes(self.inner.node.as_str()).as_str());
        out.append("'");
        out
    }
}

impl Default for Table<EntityConnectionTable> {
    fn default() -> (r: Table<EntityConnectionTable>)
        ensures
            laid_out(
                r,
                "lz_connections"@,
                seq![("id"@, ParamType::Integer), ("node"@, ParamType::Text)],
            ),
    {
        let mut t: Table<EntityConnectionTable> = Table::new("lz_connections");
        t.add_column(&Param::new("id", ParamType::Integer));
        t.add_column(&Param::new("node", ParamType::Text));
        t
    }
}

/// The tables of the journal.
pub struct Schemas {
    pub entities: Table<EntityTable>,
    pub sessions: Table<SessionTable>,
    pub entries: Table<EntryTable>,
    pub blocks: Table<BlockTable>,
    pub connections: Table<EntityConnectionTable>,
}

impl Default for Schemas {
    fn default() -> (r: Schemas)
        ensures
            laid_out(r.entities, "lz_entities"@, seq![("id"@, ParamType::Text)]),
            laid_out(
                r.sessions,
                "lz_sessions"@,
                seq![
                    ("id"@, ParamType::Integer),
                    ("day"@, ParamType::Text),
                    ("title"@, ParamType::Text),
                    ("context"@, ParamType::Text),
                    ("nblocks"@, ParamType::Integer),
                    ("top_block"@, ParamType::Integer),
                ],
            ),
            laid_out(
                r.entries,
                "lz_entries"@,
                seq![
                    ("id"@, ParamType::Integer),
                    ("day"@, ParamType::Text),
                    ("title"@, ParamType::Text),
                    ("context"@, ParamType::Text),
                    ("nblocks"@, ParamType::Integer),
                    ("top_block"@, ParamType::Integer),
                    ("position"@, ParamType::Integer),
                ],
            ),
            laid_out(
                r.blocks,
                "lz_blocks"@,
                seq![
                    ("id"@, ParamType::Integer),
                    ("parent"@, ParamType::Integer),
                    ("content"@, ParamType::Text),
                    ("position"@, ParamType::Integer),
                ],
            ),
            laid_out(
                r.connections,
                "lz_connections"@,
                seq![("id"@, ParamType::Integer), ("node"@, ParamType::Text)],
            ),
    {
        Schemas {
            entities: Table::<EntityTable>::default(),
            sessions: Table::<SessionTable>::default(),
            entries: Table::<EntryTable>::default(),
            blocks: Table::<BlockTable>::default(),
            connections: Table::<EntityConnectionTable>::default(),
        }
    }
}

impl Schemas {
    /// The statements that create the tables: entities, sessions, entries,
    /// blocks and connections, in this order.
    pub fn generate(&self) -> (r: String)
        ensures
            r@ == self.entities.sql() + self.sessions.sql() + self.entries.sql()
                + self.blocks.sql() + self.connections.sql(),
    {
        let mut out = self.entities.sqlize();
        out.append(self.sessions.sqlize().as_str());
        out.append(self.entries.sqlize().as_str());
        out.append(self.blocks.sqlize().as_str());
        out.append(self.connections.sqlize().as_str());
        out
    }
}

/// The statements that insert the first `n` of the connections `rows`.
pub open spec fn connection_statements(
    table: Table<EntityConnectionTable>,
    rows: Seq<InnerEntityConnectionRow>,
    lookup: Map<EntityId, String>,
    n: int,
) -> Seq<char>
    decreases n,
{
    if n <= 0 {
        Seq::empty()
    } else {
        connection_statements(table, rows, lookup, n - 1) + table.insert_text(
            lookup_expr(lookup, Some(rows[n - 1].entity_id)) + ", '"@ + quotes_escaped(
                rows[n - 1].node@,
            ) + "'"@,
        )
    }
}

impl SessionRows {
    /// The statements that insert the connections of the session, in their
    /// order; `lookup` gives the names of the entities.
    pub fn generate_connections(&self, schemas: &Schemas, lookup: &HashMap<EntityId, String>) -> (r:
        String)
        ensures
            r@ == connection_statements(
                schemas.connections,
                self.connections@,
                lookup@,
                self.connections@.len() as int,
            ),
    {
        let mut out = String::new();
        let n: usize = self.connections.len();
        let mut i: usize = 0;
        assert(out@ =~= connection_statements(schemas.connections, self.connections@, lookup@, 0));
        while i < n
            invariant
                n == self.connections@.len(),
                i <= n,
                out@ == connection_statements(
                    schemas.connections,
                    self.connections@,
                    lookup@,
                    i as int,
                ),
            decreases n - i,
        {
            let row = EntityConnectionRow { inner: &self.connections[i], lookup };
            out.append(schemas.connections.sqlize_insert(&row).as_str());
            i += 1;
        }
        out
    }
}

} // verus!
