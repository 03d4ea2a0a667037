use dagzet::logzet::entity::statements_to_entities;
use dagzet::logzet::session::build_sessions;
use dagzet::logzet::session_tree::{entities_to_map, SessionNode};
use dagzet::logzet::statement::Statement;
use dagzet::logzet::{Block, Command, Date, DateKey, TextLine, Time, TimeKey};

#[test]
fn test_date_ordering() {
    let stmts: Vec<Statement> = vec![
        Statement::Date(Date {
            key: DateKey {
                year: 2025,
                month: 8,
                day: 19,
                context: None,
            },
            tags: vec![],
            title: "".to_string(),
        }),
        Statement::Date(Date {
            key: DateKey {
                year: 2024,
                month: 5,
                day: 20,
                context: None,
            },
            tags: vec![],
            title: "".to_string(),
        }),
        Statement::Date(Date {
            key: DateKey {
                year: 2025,
                month: 8,
                day: 18,
                context: None,
            },
            tags: vec![],
            title: "".to_string(),
        }),
    ];
    let output = build_sessions(stmts.clone());

    // sanity check
    assert_eq!(stmts.len(), output.len());

    // extract date structs from statments
    let dates: Vec<_> = stmts
        .into_iter()
        .filter_map(|s| match s {
            Statement::Date(d) => Some(d),
            _ => None,
        })
        .collect();

    let expected_order: Vec<DateKey> = [1, 2, 0]
        .into_iter()
        .map(|i| dates[i].key.clone())
        .collect();

    let generated_order: Vec<DateKey> =
        output.into_iter().map(|s| s.date.key.clone()).collect();

    assert_eq!(expected_order, generated_order);
}

// Make sure statement parsing logic is grouping and chunking things correctly
#[test]
fn test_entry_groupings() {
    let dt = Statement::Date;
    let tm = Statement::Time;
    let tl = Statement::TextLine;
    let br = Statement::Break;
    let time1 = TimeKey {
        hour: 14,
        minute: 1,
    };
    let time2 = TimeKey {
        hour: 15,
        minute: 30,
    };
    let document: Vec<Statement> = vec![
        dt(Date::default()),
        tm(Time {
            key: time1.clone(),
            title: "First task of the day".to_string(),
            tags: vec!["timelog:00:15:00".to_string()],
            ..Default::default()
        }),
        tl(TextLine {
            text: "I am writing some words".to_string(),
        }),
        tl(TextLine {
            text: "and I am doing my task".to_string(),
        }),
        tm(Time {
            key: time2.clone(),
            title: "Brainstorming".to_string(),
            tags: vec!["timelog:00:18:00".to_string(), "brainstorm".to_string()],
            ..Default::default()
        }),
        tl(TextLine {
            text: "this is a thought I had".to_string(),
        }),
        br.clone(),
        tl(TextLine {
            text: "this is a another thought I had".to_string(),
        }),
        br.clone(),
        tl(TextLine {
            text: "one more thought".to_string(),
        }),
    ];
    let sessions = build_sessions(document.clone());

    // Only one document expected
    assert_eq!(sessions.len(), 1);

    // extract that document
    let session = &sessions[0];
    assert_eq!(session.entries.len(), 2);

    // Make sure the entries are being grouped as expected
    // Also make sure blocks are being chunked properly
    let entries = &session.entries;

    assert_eq!(&entries[0].time.key, &time1);
    assert_eq!(entries[0].blocks.len(), 1);
    assert!(matches!(entries[0].blocks[0], Block::Text));

    assert_eq!(&entries[1].time.key, &time2);
    assert_eq!(entries[1].blocks.len(), 3);
}

#[test]
fn test_statements_to_entries() {
    let dt = Statement::Date;
    let tm = Statement::Time;
    let tl = Statement::TextLine;
    let br = Statement::Break;
    let time1 = TimeKey {
        hour: 14,
        minute: 1,
    };
    let time2 = TimeKey {
        hour: 15,
        minute: 30,
    };
    let document: Vec<Statement> = vec![
        dt(Date::default()),
        tm(Time {
            key: time1.clone(),
            title: "First task of the day".to_string(),
            tags: vec!["timelog:00:15:00".to_string()],
            ..Default::default()
        }),
        tl(TextLine {
            text: "I am writing some words".to_string(),
        }),
        tl(TextLine {
            text: "and I am doing my task".to_string(),
        }),
        tm(Time {
            key: time2.clone(),
            title: "Brainstorming".to_string(),
            tags: vec!["timelog:00:18:00".to_string(), "brainstorm".to_string()],
            ..Default::default()
        }),
        tl(TextLine {
            text: "this is a thought I had".to_string(),
        }),
        br.clone(),
        tl(TextLine {
            text: "this is a another thought I had".to_string(),
        }),
        br.clone(),
        tl(TextLine {
            text: "one more thought".to_string(),
        }),
    ];

    let entities = statements_to_entities(document);

    assert_eq!(entities.entities.len(), 7);
}

#[test]
fn test_dz_full_paths() {
    let dt = Statement::Date;
    let tm = Statement::Time;
    let tl = Statement::TextLine;
    let br = Statement::Break;
    let cmd = Statement::Command;
    let time1 = TimeKey {
        hour: 14,
        minute: 1,
    };
    let time2 = TimeKey {
        hour: 15,
        minute: 30,
    };
    let document: Vec<Statement> = vec![
        dt(Date::default()),
        tm(Time {
            key: time1.clone(),
            title: "First task of the day".to_string(),
            tags: vec!["timelog:00:15:00".to_string()],
            ..Default::default()
        }),
        cmd(Command {
            args: vec!["dz".to_string(), "a/b".to_string()],
        }),
        tl(TextLine {
            text: "I am writing some words".to_string(),
        }),
        tl(TextLine {
            text: "and I am doing my task".to_string(),
        }),
        tm(Time {
            key: time2.clone(),
            title: "Brainstorming".to_string(),
            tags: vec!["timelog:00:18:00".to_string(), "brainstorm".to_string()],
            ..Default::default()
        }),
        cmd(Command {
            args: vec!["dz".to_string(), "g/h".to_string()],
        }),
        tl(TextLine {
            text: "this is a thought I had".to_string(),
        }),
        br.clone(),
        cmd(Command {
            args: vec!["dz".to_string(), "c/d".to_string()],
        }),
        cmd(Command {
            args: vec!["dz".to_string(), "e/f".to_string()],
        }),
        tl(TextLine {
            text: "this is a another thought I had".to_string(),
        }),
        br.clone(),
        tl(TextLine {
            text: "one more thought".to_string(),
        }),
    ];

    let entities = statements_to_entities(document);
    assert_eq!(entities.connections.len(), 3);

    let mut total_connections = 0;
    for (_, con) in entities.connections {
        total_connections += con.len();
    }

    assert_eq!(total_connections, 4);
}

#[test]
fn test_dz_prev_operator() {
    let stmts: Vec<Statement> = vec![
        Statement::Date(Date::default()),
        Statement::Time(Time::default().hour(12).minute(34)),
        Statement::Command(Command {
            args: ["dz", "a/b"].into_iter().map(String::from).collect(),
        }),
        Statement::Time(Time::default().hour(13).minute(37)),
        Statement::Command(Command {
            args: ["dz", "$"].into_iter().map(String::from).collect(),
        }),
        Statement::Command(Command {
            args: ["dz", "$/c"].into_iter().map(String::from).collect(),
        }),
    ];
    let entities = statements_to_entities(stmts);
    let connections = entities.connections;
    let generated: Vec<(usize, Vec<String>)> = connections.into_iter().collect();
    let expected: Vec<(usize, Vec<String>)> = [(1, vec!["a/b"]), (2, vec!["a/b", "a/b/c"])]
        .into_iter()
        .map(|(id, nodes)| (id, nodes.into_iter().map(String::from).collect()))
        .collect();
    assert_eq!(generated, expected);
}

#[test]
fn test_session_tree() {
    let dt = Statement::Date;
    let tm = Statement::Time;
    let tl = Statement::TextLine;
    let br = Statement::Break;
    let time1 = TimeKey {
        hour: 14,
        minute: 1,
    };
    let time2 = TimeKey {
        hour: 15,
        minute: 30,
    };
    let document: Vec<Statement> = vec![
        // 0
        dt(Date::default()),
        // 1
        tm(Time {
            key: time1.clone(),
            title: "First task of the day".to_string(),
            tags: vec!["timelog:00:15:00".to_string()],
            ..Default::default()
        }),
        // 2
        tl(TextLine {
            text: "I am writing some words".to_string(),
        }),
        tl(TextLine {
            text: "and I am doing my task".to_string(),
        }),
        // 3
        tm(Time {
            key: time2.clone(),
            title: "Brainstorming".to_string(),
            tags: vec!["timelog:00:18:00".to_string(), "brainstorm".to_string()],
            ..Default::default()
        }),
        // 4
        tl(TextLine {
            text: "this is a thought I had".to_string(),
        }),
        br.clone(),
        // 5
        tl(TextLine {
            text: "this is a another thought I had".to_string(),
        }),
        br.clone(),
        // 6
        tl(TextLine {
            text: "one more thought".to_string(),
        }),
        // 7
        dt(Date {
            key: DateKey {
                year: 2025,
                month: 8,
                day: 23,
                ..Default::default()
            },
            ..Default::default()
        }),
    ];

    let entities = statements_to_entities(document);

    let session_map = entities_to_map(&entities.entities);

    let tree: Vec<SessionNode> = session_map.into_iter().map(|s| s.into()).collect();

    assert_eq!(tree.len(), 2);
    assert_eq!(tree[0].session.0, 0);
    assert_eq!(tree[1].session.0, 7);

    let entries = &tree[0].entries;
    assert_eq!(entries.len(), 2);

    let expected_entry_ids: Vec<usize> = vec![1, 3];
    let generated_entry_ids: Vec<usize> = entries.iter().map(|e| e.entry.0).collect();
    assert_eq!(expected_entry_ids, generated_entry_ids);

    let blocks = &entries[1].blocks;
    let expected_block_ids: Vec<usize> = vec![4, 5, 6];
    let generated_block_ids: Vec<usize> = blocks.iter().map(|b| b.0).collect();

    assert_eq!(expected_block_ids, generated_block_ids);
}

#[test]
fn test_append_blocks_to_session() {
    let dt = Statement::Date;
    let tl = Statement::TextLine;
    let br = Statement::Break;
    let document: Vec<Statement> = vec![
        dt(Date::default()),
        tl(TextLine {
            text: "I am writing some words".to_string(),
        }),
        tl(TextLine {
            text: "and I am doing my task".to_string(),
        }),
        br.clone(),
        // 5
        tl(TextLine {
            text: "this is a another thought I had".to_string(),
        }),
        br.clone(),
        // 6
        tl(TextLine {
            text: "one more thought".to_string(),
        }),
    ];

    let entities = statements_to_entities(document);

    let session_map = entities_to_map(&entities.entities);

    let tree: Vec<SessionNode> = session_map.into_iter().map(|s| s.into()).collect();

    let tree = &tree[0];
    assert_eq!(tree.blocks.len(), 3);
}
