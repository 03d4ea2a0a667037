//! The text of SQLite statements: tables, their columns, and rows to insert.

use crate::text::{join, joined, texts};
use std::marker::PhantomData;
use vstd::prelude::*;

verus! {

/// The type of a column.
#[derive(Clone, Copy, Debug, PartialEq, Eq, Structural)]
pub enum ParamType {
    TextUnique,
    IntegerPrimaryKey,
    Integer,
    IntegerNotNull,
    Text,
}

/// What can be written as SQLite text.
pub trait SQLize {
    /// The SQLite text of the value.
    open spec fn sql(&self) -> Seq<char> {
        arbitrary()
    }

    /// Writes the value as SQLite text.
    fn sqlize(&self) -> (r: String)
        ensures
            r@ == self.sql(),
    ;
}

/// A row of the table `T`.
pub trait Row<T> {
    /// The values of the row as they stand in an insert statement.
    open spec fn values(&self) -> Seq<char> {
        arbitrary()
    }

    /// Writes the values of the row for an insert statement.
    fn sqlize_values(&self) -> (r: String)
        ensures
            r@ == self.values(),
    ;
}

/// A column: its name and type.
pub struct Param {
    pub name: String,
    pub ptype: ParamType,
}

/// A table of rows of the kind `T`.
pub struct Table<T> {
    pub name: String,
    pub columns: Vec<Param>,
    pub phantom: PhantomData<T>,
}

/// The SQLite text of a column type.
pub open spec fn type_text(t: ParamType) -> Seq<char> {
    match t {
        ParamType::TextUnique => "TEXT UNIQUE"@,
        ParamType::IntegerPrimaryKey => "INTEGER PRIMARY KEY"@,
        ParamType::Integer => "INTEGER"@,
        ParamType::IntegerNotNull => "INTEGER NOT NULL"@,
        ParamType::Text => "TEXT"@,
    }
}

impl SQLize for ParamType {
    open spec fn sql(&self) -> Seq<char> {
        type_text(*self)
    }

    fn sqlize(&self) -> (r: String) {
        match self {
            ParamType::TextUnique => "TEXT UNIQUE".to_owned(),
            ParamType::IntegerPrimaryKey => "INTEGER PRIMARY KEY".to_owned(),
            ParamType::Integer => "INTEGER".to_owned(),
            ParamType::IntegerNotNull => "INTEGER NOT NULL".to_owned(),
            ParamType::Text => "TEXT".to_owned(),
        }
    }
}

impl SQLize for Param {
    /// The name, a space, and the type.
    open spec fn sql(&self) -> Seq<char> {
        self.name@ + " "@ + type_text(self.ptype)
    }

    fn sqlize(&self) -> (r: String) {
        let mut out = self.name.clone();
        out.append(" ");
        out.append(self.ptype.sqlize().as_str());
        out
    }
}

impl Param {
    /// A column.
    pub fn new(name: &str, ptype: ParamType) -> (r: Param)
        ensures
            r.name@ == name@,
            r.ptype == ptype,
    {
        Param { name: name.to_owned(), ptype }
    }
}

/// The lines of the columns inside a `CREATE TABLE` statement, for the first
/// `n` columns.
pub open spec fn column_lines(columns: Seq<Param>, n: int) -> Seq<Seq<char>>
    decreases n,
{
    if n <= 0 {
        Seq::empty()
    } else {
        column_lines(columns, n - 1).push("    "@ + columns[n - 1].sql())
    }
}

/// The names of the first `n` columns that a row gives a value for: all but
/// the primary key.
pub open spec fn insert_names(columns: Seq<Param>, n: int) -> Seq<Seq<char>>
    decreases n,
{
    if n <= 0 {
        Seq::empty()
    } else if columns[n - 1].ptype == ParamType::IntegerPrimaryKey {
        insert_names(columns, n - 1)
    } else {
        insert_names(columns, n - 1).push(columns[n - 1].name@)
    }
}

impl<T> Table<T> {
    /// The statement that inserts a row with the given values.
    pub open spec fn insert_text(&self, values: Seq<char>) -> Seq<char> {
        "INSERT INTO "@ + self.name@ + "("@ + joined(
            insert_names(self.columns@, self.columns@.len() as int),
            ", "@,
        ) + ")\nVALUES("@ + values + ");"@
    }

    /// A table without columns.
    pub fn new(name: &str) -> (r: Table<T>)
        ensures
            r.name@ == name@,
            r.columns@.len() == 0,
    {
        Table::<T> { name: name.to_owned(), columns: Vec::new(), phantom: PhantomData }
    }

    /// Adds a column behind the others.
    pub fn add_column(&mut self, param: &Param)
        ensures
            final(self).name == old(self).name,
            final(self).columns@.len() == old(self).columns@.len() + 1,
            forall|i: int|
                0 <= i < old(self).columns@.len() ==> final(self).columns@[i] == old(
                    self,
                ).columns@[i],
            final(self).columns@.last().name@ == param.name@,
            final(self).columns@.last().ptype == param.ptype,
    {
        self.columns.push(Param { name: param.name.clone(), ptype: param.ptype });
    }

    /// The statement that inserts `row`.
    pub fn sqlize_insert<R: Row<T>>(&self, row: &R) -> (r: String)
        ensures
            r@ == self.insert_text(row.values()),
    {
        let mut sql = "INSERT INTO ".to_owned();
        sql.append(self.name.as_str());
        sql.append("(");
        let mut params: Vec<String> = Vec::new();
        let n: usize = self.columns.len();
        let mut i: usize = 0;
        while i < n
            invariant
                n == self.columns@.len(),
                i <= n,
                texts(params@) == insert_names(self.columns@, i as int),
            decreases n - i,
        {
            let col = &self.columns[i];
            let ghost before = texts(params@);
            match col.ptype {
                ParamType::IntegerPrimaryKey => {},
                _ => {
                    params.push(col.name.clone());
                    assert(texts(params@) =~= before.push(col.name@));
                },
            }
            i += 1;
        }
        sql.append(join(&params, ", ").as_str());
        sql.append(")\nVALUES(");
        sql.append(row.sqlize_values().as_str());
        sql.append(");");
        sql
    }
}

impl<T> SQLize for Table<T> {
    /// The statement that creates the table if it is not there.
    open spec fn sql(&self) -> Seq<char> {
        "CREATE TABLE IF NOT EXISTS "@ + self.name@ + "(\n"@ + joined(
            column_lines(self.columns@, self.columns@.len() as int),
            ",\n"@,
        ) + "\n);\n"@
    }

    fn sqlize(&self) -> (r: String) {
        let mut sql = "CREATE TABLE IF NOT EXISTS ".to_owned();
        sql.append(self.name.as_str());
        sql.append("(\n");
        let mut params: Vec<String> = Vec::new();
        let n: usize = self.columns.len();
        let mut i: usize = 0;
        while i < n
            invariant
                n == self.columns@.len(),
                i <= n,
                texts(params@) == column_lines(self.columns@, i as int),
            decreases n - i,
        {
            let ghost before = texts(params@);
            let mut line = "    ".to_owned();
            line.append(self.columns[i].sqlize().as_str());
            params.push(line);
            assert(texts(params@) =~= before.push("    "@ + self.columns@[i as int].sql()));
            i += 1;
        }
        sql.append(join(&params, ",\n").as_str());
        sql.append("\n);\n");
        sql
    }
}

} // verus!
