use dagzet::sqlite::{Param, ParamType, Row, SQLize, Table};

struct TestTable;

struct TestRow {
    name: String,
    position: u32,
}

impl Row<TestTable> for TestRow {
    fn sqlize_values(&self) -> String {
        format!("'{}', {}", self.name, self.position)
    }
}

#[test]
fn sqlize_param_type() {
    assert_eq!(ParamType::TextUnique.sqlize(), "TEXT UNIQUE".to_string());
}

#[test]
fn sqlize_param() {
    let p = Param {
        ptype: ParamType::TextUnique,
        name: "name".to_string(),
    };

    assert_eq!(p.sqlize(), "name TEXT UNIQUE", "unexpected SQLite code");
}

fn generate_test_table() -> Table<TestTable> {
    let mut tab = Table::new("dz_nodes");

    tab.add_column(&Param::new("name", ParamType::TextUnique));
    tab.add_column(&Param::new("id", ParamType::IntegerPrimaryKey));
    tab.add_column(&Param::new("position", ParamType::Integer));

    tab
}

#[test]
fn sqlize_table() {
    let tab = generate_test_table();

    let expected = format!(
        "{}{}{}{}{}",
        "CREATE TABLE IF NOT EXISTS dz_nodes(\n",
        "    name TEXT UNIQUE,\n",
        "    id INTEGER PRIMARY KEY,\n",
        "    position INTEGER\n",
        ");\n"
    );

    assert_eq!(tab.sqlize(), expected);
}

#[test]
#[allow(unused)]
fn sqlize_insert() {
    let tab = generate_test_table();

    let row = TestRow {
        name: "test".to_string(),
        position: 1,
    };

    let expected = format!(
        "{}{}",
        "INSERT INTO dz_nodes(name, position)\n", "VALUES('test', 1);"
    );

    assert_eq!(
        tab.sqlize_insert(&row),
        expected,
        "Did not generate expected INSERT statement"
    );
}
