use dagzet::logzet::entity::{gather_entities, statements_to_entities, Entity};
use dagzet::logzet::rows::{EntityRow, EntityRowId, EntryRow, SessionRows};
use dagzet::logzet::session::build_sessions;
use dagzet::logzet::session_tree::{try_entities_to_map, SessionNode};
use dagzet::logzet::statement::{title_and_tags, Statement, StatementBuilder, StatementError};
use dagzet::logzet::tables::{uuid_lookup, Schemas};
use dagzet::logzet::{is_text_before, BlockData, DateKey, SortKey, TimeKey};
use std::collections::HashMap;

fn read(lines: &[&str]) -> Vec<Statement> {
    let mut builder = StatementBuilder::new();
    for line in lines {
        builder.parse(line.to_string());
    }
    builder.build()
}

#[test]
fn a_heading_that_is_neither_entry_nor_session_fails() {
    for line in ["@", "@abc", "@12:3", "@2025-8-18", "@ 12:34"] {
        let got = Statement::try_from(line.to_string());
        assert!(matches!(got, Err(StatementError::ParseError)), "{}", line);
    }
}

#[test]
fn digits_of_other_scripts_match_but_are_no_numbers() {
    let got = Statement::try_from("@١٢:٣٤ title".to_string());
    assert!(matches!(got, Err(StatementError::ParseError)));
}

#[test]
fn the_entry_pattern_is_tried_first_and_anywhere() {
    match Statement::try_from("@x @07:05   late #t".to_string()) {
        Ok(Statement::Time(time)) => {
            assert_eq!(time.key, TimeKey { hour: 7, minute: 5 });
            assert_eq!(time.title, "late");
            assert_eq!(time.tags, vec!["t".to_string()]);
            assert_eq!(time.id, 0);
        }
        _ => panic!("no entry"),
    }
    match Statement::try_from("@2025-08-18#ctx".to_string()) {
        Ok(Statement::Date(date)) => {
            assert_eq!(date.key.year, 2025);
            assert_eq!(date.key.context, Some("ctx".to_string()));
            assert_eq!(date.title, "");
            assert!(date.tags.is_empty());
        }
        _ => panic!("no session"),
    }
}

#[test]
fn breaks_commands_and_text() {
    assert!(matches!(Statement::try_from("----".to_string()), Ok(Statement::Break)));
    match Statement::try_from("#!".to_string()) {
        Ok(Statement::Command(c)) => assert!(c.args.is_empty()),
        _ => panic!("no command"),
    }
    match Statement::try_from("#!dz a  b".to_string()) {
        Ok(Statement::Command(c)) => assert_eq!(c.args, vec!["a".to_string(), "b".to_string()]),
        _ => panic!("no command"),
    }
    match Statement::try_from(" @12:34".to_string()) {
        Ok(Statement::TextLine(l)) => assert_eq!(l.text, " @12:34"),
        _ => panic!("no text"),
    }
}

#[test]
fn titles_and_tags() {
    assert_eq!(title_and_tags(""), (String::new(), Vec::new()));
    assert_eq!(
        title_and_tags("#a b #c  d #"),
        ("b  d".to_string(), vec!["a".to_string(), "c".to_string(), "".to_string()])
    );
    assert_eq!(title_and_tags("plain"), ("plain".to_string(), Vec::new()));
}

#[test]
fn the_builder_passes_over_what_is_no_statement() {
    let stmts = read(&["@2025-08-20", "", "@bad", "text", "---"]);
    assert_eq!(stmts.len(), 3);
    assert!(matches!(stmts[0], Statement::Date(_)));
    assert!(matches!(stmts[1], Statement::TextLine(_)));
    assert!(matches!(stmts[2], Statement::Break));
}

#[test]
fn entities_are_numbered_by_their_place() {
    let stmts = read(&["@2025-08-20 day", "one", "two", "@10:00 first", "three", "---", "four"]);
    let list = statements_to_entities(stmts);
    assert_eq!(list.entities.len(), 5);
    match &list.entities[1] {
        Entity::Block(BlockData::Text(b)) => {
            assert_eq!(b.uuid, 1);
            assert_eq!(b.lines, vec!["one".to_string(), "two".to_string()]);
        }
        _ => panic!("no block"),
    }
    match &list.entities[2] {
        Entity::Entry(t) => assert_eq!(t.id, 2),
        _ => panic!("no entry"),
    }
    match &list.entities[4] {
        Entity::Block(b) => assert_eq!(b.text(), "four"),
        _ => panic!("no block"),
    }
}

#[test]
fn commands_that_cannot_be_taken() {
    assert!(gather_entities(&read(&["@10:00", "#! xx a"])).is_none());
    assert!(gather_entities(&read(&["@10:00", "#! dz"])).is_none());
    assert!(gather_entities(&read(&["#! dz a/b"])).is_none());
    assert!(gather_entities(&read(&["@2025-08-20", "#! dz a/b"])).is_none());
    assert!(gather_entities(&read(&["@10:00", "#! dz $"])).is_none());
    assert!(gather_entities(&read(&["text", "#! dz a/b"])).is_none());
    let fine = gather_entities(&read(&["@10:00", "#!", "#! dz a/b", "#! dz $x/c/d"])).unwrap();
    assert_eq!(fine.connections[&0], vec!["a/b".to_string(), "a/b/c/d".to_string()]);
}

#[test]
fn sessions_come_in_the_order_of_their_keys() {
    let stmts = read(&[
        "@2025-08-19",
        "@2024-09-01#b",
        "@2024-09-01",
        "@2024-09-01#a later",
        "@11:00 b",
        "@09:30 a",
        "x",
        "@2024-09-01#a again",
    ]);
    let sessions = build_sessions(stmts);
    let keys: Vec<String> = sessions.iter().map(|s| (&s.date.key).into()).collect();
    assert_eq!(keys, vec!["2025-08-19", "2024-09-01", "2024-09-01#a", "2024-09-01#b"]);
    assert_eq!(sessions[2].date.title, "again");
    assert!(sessions[2].entries.is_empty());
}

#[test]
fn entries_come_in_the_order_of_their_times() {
    let stmts = read(&["@2025-01-02", "@11:00 b", "one", "@09:30 a", "two", "---", "three"]);
    let sessions = build_sessions(stmts);
    assert_eq!(sessions.len(), 1);
    let entries = &sessions[0].entries;
    assert_eq!(entries.len(), 2);
    assert_eq!(entries[0].time.key, TimeKey { hour: 9, minute: 30 });
    assert_eq!(entries[0].time.title, "a");
    assert_eq!(entries[0].blocks.len(), 2);
    assert_eq!(entries[1].blocks.len(), 1);
}

#[test]
fn an_entry_needs_a_session() {
    let list = statements_to_entities(read(&["@10:00 early", "@2025-01-02"]));
    assert!(try_entities_to_map(&list.entities).is_none());
    let list = statements_to_entities(read(&["text", "@2025-01-02"]));
    assert!(try_entities_to_map(&list.entities).is_none());
    let list = statements_to_entities(read(&["@2025-01-02", "text", "@10:00", "more"]));
    let tree: Vec<SessionNode> =
        try_entities_to_map(&list.entities).unwrap().into_iter().map(|s| s.into()).collect();
    assert_eq!(tree.len(), 1);
    assert_eq!(tree[0].session.0, 0);
    assert_eq!(tree[0].blocks.len(), 1);
    assert_eq!(tree[0].blocks[0].0, 1);
    assert_eq!(tree[0].entries[0].entry.0, 2);
    assert_eq!(tree[0].entries[0].blocks[0].0, 3);
}

#[test]
fn keys_are_ordered_by_month_day_year_context() {
    let key = |month, day, year, context: Option<&str>| DateKey {
        month,
        day,
        year,
        context: context.map(|c| c.to_string()),
    };
    let keys = [
        key(1, 1, 2025, Some("b")),
        key(1, 1, 2025, None),
        key(1, 1, 2024, Some("z")),
        key(2, 1, 2020, None),
        key(1, 2, 2020, None),
        key(1, 1, 2025, Some("ab")),
        key(1, 1, 2025, Some("a")),
    ];
    for a in &keys {
        for b in &keys {
            assert_eq!(a.is_before(b), a < b);
            assert_eq!(a.is_same(b), a == b);
        }
    }
    for (a, b) in [("", "a"), ("a", "ab"), ("ab", "b"), ("é", "z"), ("a", "a"), ("b", "a")] {
        assert_eq!(is_text_before(a, b), a < b, "{} {}", a, b);
    }
    let t = |hour, minute| TimeKey { hour, minute };
    assert!(t(9, 59).is_before(&t(10, 0)));
    assert!(!t(10, 0).is_before(&t(10, 0)));
    assert!(t(10, 0).is_before(&t(10, 1)));
}

#[test]
fn names_of_days_times_and_entities() {
    let key = DateKey { month: 8, day: 5, year: 987, context: Some("abc".to_string()) };
    assert_eq!(key.day_string(), "0987-08-05");
    assert_eq!(key.to_text(), "0987-08-05#abc");
    assert_eq!(TimeKey { hour: 7, minute: 3 }.to_text(), "07:03");
    let row = EntityRow {
        uuid: EntityRowId {
            date: Some(key),
            time: Some(TimeKey { hour: 23, minute: 59 }),
            position: Some(12),
        },
    };
    assert_eq!(row.to_text(), "0987-08-05#abc/23:59/12");
    assert_eq!(EntityRow::default().to_text(), "");
    let only = EntityRow { uuid: EntityRowId { date: None, time: None, position: Some(0) } };
    assert_eq!(only.to_text(), "0");
}

#[test]
fn rows_of_places_that_are_not_there_are_blank() {
    let list = statements_to_entities(read(&["@2025-01-02#ctx t", "@10:00 first"]));
    let tree: Vec<SessionNode> =
        try_entities_to_map(&list.entities).unwrap().into_iter().map(|s| s.into()).collect();
    let row: EntryRow = (&list, &tree[0], &tree[0].entries[0], 4).into();
    assert_eq!(row.day, "2025-01-02#ctx");
    assert_eq!(row.category, Some("ctx".to_string()));
    assert_eq!(row.time, "10:00");
    assert_eq!(row.title, "first");
    assert_eq!(row.nblocks, 0);
    assert_eq!(row.top_block, None);
    assert_eq!(row.position, 4);
    let other = statements_to_entities(read(&["text"]));
    let row: EntryRow = (&other, &tree[0], &tree[0].entries[0], 0).into();
    assert_eq!(row.entity_id, 1);
    assert_eq!(row.day, "");
    assert_eq!(row.time, "");
    let rows: SessionRows = (&other, &tree[0]).into();
    assert_eq!(rows.logs.len(), 1);
    assert_eq!(rows.entities.len(), 1);
}

#[test]
fn journal_tables() {
    let schemas = Schemas::default();
    let expected = format!(
        "{}{}{}{}{}",
        "CREATE TABLE IF NOT EXISTS lz_entities(\n    id TEXT\n);\n",
        "CREATE TABLE IF NOT EXISTS lz_sessions(\n    id INTEGER,\n    day TEXT,\n    title TEXT,\n    context TEXT,\n    nblocks INTEGER,\n    top_block INTEGER\n);\n",
        "CREATE TABLE IF NOT EXISTS lz_entries(\n    id INTEGER,\n    day TEXT,\n    title TEXT,\n    context TEXT,\n    nblocks INTEGER,\n    top_block INTEGER,\n    position INTEGER\n);\n",
        "CREATE TABLE IF NOT EXISTS lz_blocks(\n    id INTEGER,\n    parent INTEGER,\n    content TEXT,\n    position INTEGER\n);\n",
        "CREATE TABLE IF NOT EXISTS lz_connections(\n    id INTEGER,\n    node TEXT\n);\n"
    );
    assert_eq!(schemas.generate(), expected);
    let mut lookup: HashMap<usize, String> = HashMap::new();
    lookup.insert(0, "2025-01-02/10:00".to_string());
    assert_eq!(
        uuid_lookup(&lookup, Some(0)),
        "(SELECT rowid FROM lz_entities WHERE id IS '2025-01-02/10:00')"
    );
    assert_eq!(uuid_lookup(&lookup, Some(1)), "-2");
    assert_eq!(uuid_lookup(&lookup, None), "-1");
    let list = statements_to_entities(read(&["@2025-01-02", "@10:00", "#! dz a/b"]));
    let tree: Vec<SessionNode> =
        try_entities_to_map(&list.entities).unwrap().into_iter().map(|s| s.into()).collect();
    let mut rows: SessionRows = (&list, &tree[0]).into();
    assert_eq!(rows.connections.len(), 1);
    rows.connections[0].node = "it's".to_string();
    assert_eq!(
        rows.generate_connections(&schemas, &lookup),
        "INSERT INTO lz_connections(id, node)\nVALUES((SELECT rowid FROM lz_entities WHERE id IS '2025-01-02/10:00'), 'it''s');"
    );
}
