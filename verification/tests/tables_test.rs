use dagzet::dagzet::DagZet;
use dagzet::sqlite::{Row, SQLize, Table};
use dagzet::tables::{
    escape_quotes, json_quote, lines_to_json, name_lookup, AudioTable, ConnectionRemarksTable,
    ConnectionsTable, FileRangesTable, FlashCardsTable, Generate, GraphRemarksTable,
    HyperlinksTable, ImagesTable, LinesTable, NodeRefsTable, NodeRemarksTable, NodesRow,
    NodesTable, TODOTable, TagsTable,
};
use std::collections::HashMap;

fn graph() -> DagZet {
    let mut dz = DagZet::new();
    for line in [
        "ns top",
        "gr about top",
        "nn a",
        "ln it's \"a\"",
        "ln back\\slash",
        "rm noted",
        "fr f.txt 3",
        "hl http://x.y/it's",
        "td do 'it'",
        "tg one two",
        "ff front",
        "fb back",
        "im a.png",
        "au a.mp3",
        "nn b",
        "co a b",
        "cr why",
        "co b c",
    ] {
        assert!(dz.parse_line_with_result(line).is_ok(), "{}", line);
    }
    dz
}

fn look(name: &str) -> String {
    format!("(SELECT id from dz_nodes WHERE name IS '{}' LIMIT 1)", name)
}

#[test]
fn quoting() {
    assert_eq!(escape_quotes("it's ''"), "it''s ''''");
    assert_eq!(escape_quotes(""), "");
    assert_eq!(json_quote("a'b\\c\"d"), "\"a''b\\\\c\\\"d\"");
    assert_eq!(lines_to_json(&Vec::new()), "[]");
    assert_eq!(lines_to_json(&vec!["a".to_string(), "b\"".to_string()]), "[\"a\",\"b\\\"\"]");
    assert_eq!(name_lookup(&"top/a".to_string()), look("top/a"));
}

#[test]
fn nodes_table() {
    let dz = graph();
    let table: Table<NodesTable> = Table::default();
    let expected = format!(
        "{}{}{}",
        "CREATE TABLE IF NOT EXISTS dz_nodes(\n    name TEXT UNIQUE,\n    id INTEGER PRIMARY KEY,\n    position INTEGER\n);\n",
        "INSERT INTO dz_nodes(name, position)\nVALUES('top/a', 1);",
        "INSERT INTO dz_nodes(name, position)\nVALUES('top/b', 2);"
    );
    assert_eq!(table.generate(&dz), expected);
    let row = NodesRow { name: "n".to_string(), position: 12 };
    assert_eq!(row.sqlize_values(), "'n', 12");
}

#[test]
fn connections_tables() {
    let dz = graph();
    let table: Table<ConnectionsTable> = Table::default();
    let expected = format!(
        "{}INSERT INTO dz_connections(left, right)\nVALUES({}, {});INSERT INTO dz_connections(left, right)\nVALUES({}, {});",
        "CREATE TABLE IF NOT EXISTS dz_connections(\n    left INTEGER NOT NULL,\n    right INTEGER NOT NULL\n);\n",
        look("top/a"),
        look("top/b"),
        look("top/b"),
        look("top/c")
    );
    assert_eq!(table.generate(&dz), expected);
    let remarks: Table<ConnectionRemarksTable> = Table::default();
    let expected = format!(
        "{}INSERT INTO dz_connection_remarks(left, right, remarks)\nVALUES({}, {}, '[\"why\"]');",
        remarks.sqlize(),
        look("top/a"),
        look("top/b")
    );
    assert_eq!(remarks.generate(&dz), expected);
}

#[test]
fn attribute_tables() {
    let dz = graph();
    let a = look("top/a");
    let lines: Table<LinesTable> = Table::default();
    assert_eq!(
        lines.generate(&dz),
        format!(
            "{}INSERT INTO dz_lines(node, lines)\nVALUES({}, '[\"it''s \\\"a\\\"\",\"back\\\\slash\"]');",
            "CREATE TABLE IF NOT EXISTS dz_lines(\n    node INTEGER,\n    lines TEXT\n);\n", a
        )
    );
    let graph_remarks: Table<GraphRemarksTable> = Table::default();
    assert_eq!(
        graph_remarks.generate(&dz),
        format!(
            "{}INSERT INTO dz_graph_remarks(namespace, remarks)\nVALUES('top', '[\"about top\"]');",
            graph_remarks.sqlize()
        )
    );
    let node_remarks: Table<NodeRemarksTable> = Table::default();
    assert_eq!(
        node_remarks.generate(&dz),
        format!(
            "{}INSERT INTO dz_remarks(node, remarks)\nVALUES({}, '[\"noted\"]');",
            node_remarks.sqlize(),
            a
        )
    );
    let ranges: Table<FileRangesTable> = Table::default();
    assert_eq!(
        ranges.generate(&dz),
        format!(
            "{}INSERT INTO dz_file_ranges(node, filename, start, end)\nVALUES({}, 'f.txt', 3, -1);",
            ranges.sqlize(),
            a
        )
    );
    let links: Table<HyperlinksTable> = Table::default();
    assert_eq!(
        links.generate(&dz),
        format!(
            "{}INSERT INTO dz_hyperlinks(node, hyperlink)\nVALUES({}, 'http://x.y/it''s');",
            links.sqlize(),
            a
        )
    );
    let todos: Table<TODOTable> = Table::default();
    assert_eq!(
        todos.generate(&dz),
        format!("{}INSERT INTO dz_todo(node, task)\nVALUES({}, 'do ''it''');", todos.sqlize(), a)
    );
    let tags: Table<TagsTable> = Table::default();
    assert_eq!(
        tags.generate(&dz),
        format!(
            "{}INSERT INTO dz_tags(node, tag)\nVALUES({}, 'one');INSERT INTO dz_tags(node, tag)\nVALUES({}, 'two');",
            tags.sqlize(),
            a,
            a
        )
    );
    let cards: Table<FlashCardsTable> = Table::default();
    assert_eq!(
        cards.generate(&dz),
        format!(
            "{}INSERT INTO dz_flashcards(node, front, back)\nVALUES({}, '[\"front\"]', '[\"back\"]');",
            cards.sqlize(),
            a
        )
    );
    let images: Table<ImagesTable> = Table::default();
    assert_eq!(
        images.generate(&dz),
        format!("{}INSERT INTO dz_images(node, image)\nVALUES({}, 'a.png');", images.sqlize(), a)
    );
    let audio: Table<AudioTable> = Table::default();
    assert_eq!(
        audio.generate(&dz),
        format!("{}INSERT INTO dz_audio(node, audio)\nVALUES({}, 'a.mp3');", audio.sqlize(), a)
    );
}

#[test]
fn node_references() {
    let dz = graph();
    let table: Table<NodeRefsTable> = Table::default();
    let mut lines: HashMap<u32, u32> = HashMap::new();
    lines.insert(1, 3);
    lines.insert(2, 15);
    let create = "CREATE TABLE IF NOT EXISTS dz_noderefs(\n    node INTEGER,\n    filename TEXT,\n    linum INTEGER\n);\n";
    assert_eq!(table.generate(&dz), create);
    let file = "in.dz".to_string();
    assert_eq!(
        table.generate_with_filename(&dz, &lines, Some(&file), 1, 3),
        format!(
            "{}INSERT INTO dz_noderefs(node, filename, linum)\nVALUES({}, 'in.dz', 3);INSERT INTO dz_noderefs(node, filename, linum)\nVALUES({}, 'in.dz', 15);",
            create,
            look("top/a"),
            look("top/b")
        )
    );
    assert_eq!(
        table.generate_with_filename(&dz, &lines, None, 2, 3),
        format!(
            "{}INSERT INTO dz_noderefs(node, filename, linum)\nVALUES({}, '', 15);",
            create,
            look("top/b")
        )
    );
    assert_eq!(table.generate_with_filename(&dz, &lines, None, 3, 9), create);
}
