use txt2sql::sink::{OutWritter, OutWritterFactory, Txt2SqlError};
use txt2sql::txt2sql::{process_lines, Txt2Sql, Txt2SqlOptions, Txt2SqlStatus};
use txt2sql::vecwritter::{VecWritter, VecWritterFactory};

fn default_converter() -> Txt2Sql<VecWritterFactory> {
    Txt2Sql::init(VecWritterFactory::init(), Txt2SqlOptions::default())
}

fn done_sinks(t: Txt2Sql<VecWritterFactory>) -> (VecWritter, VecWritter) {
    match t.status {
        Txt2SqlStatus::Done(d) => (d.create_table, d.inserts),
        _ => panic!("converter is not done"),
    }
}

#[test]
fn it_works() {
    let mut txt2sql = default_converter();
    txt2sql.process_start().unwrap();
    txt2sql.process_line("column1|Column 2").unwrap();
    txt2sql.process_line("data11|data12").unwrap();
    txt2sql.process_line("data21|O'Donnell").unwrap();
    txt2sql.process_end().unwrap();
    let mut keys = txt2sql.owf.opened.clone();
    keys.sort_unstable();
    assert_eq!(keys, ["create_table", "inserts"]);
    let (create_table, inserts) = done_sinks(txt2sql);
    assert_eq!(create_table.paragraphs, [
        "create table table1 (\n column1 text,\n column_2 text\n);\n"
    ]);
    assert_eq!(inserts.paragraphs, [
        "insert into table1 (column1, column_2) values ('data11', 'data12');\n",
        "insert into table1 (column1, column_2) values ('data21', 'O''Donnell');\n"
    ]);
}

#[test]
fn scenario_header_only() {
    let mut t = default_converter();
    t.process_start().unwrap();
    t.process_line("column1|Column 2").unwrap();
    t.process_end().unwrap();
    let (create_table, inserts) = done_sinks(t);
    assert_eq!(create_table.paragraphs, [
        "create table table1 (\n column1 text,\n column_2 text\n);\n"
    ]);
    assert!(!create_table.open);
    assert_eq!(inserts.paragraphs.len(), 0);
    assert!(!inserts.open);
}

#[test]
fn scenario_short_row() {
    let mut t = default_converter();
    t.process_start().unwrap();
    t.process_line("a|b|c").unwrap();
    t.process_line("1|2").unwrap();
    t.process_end().unwrap();
    let (_, inserts) = done_sinks(t);
    assert_eq!(inserts.paragraphs, [
        "insert into table1 (a, b, c) values ('1', '2');\n"
    ]);
}

#[test]
fn scenario_long_row() {
    let mut t = default_converter();
    t.process_start().unwrap();
    t.process_line("a").unwrap();
    t.process_line("1|2").unwrap();
    t.process_end().unwrap();
    let (_, inserts) = done_sinks(t);
    assert_eq!(inserts.paragraphs, [
        "insert into table1 (a) values ('1', '2');\n"
    ]);
}

#[test]
fn custom_options() {
    let options = Txt2SqlOptions::new(";".to_string(), "people".to_string());
    let mut t = Txt2Sql::init(VecWritterFactory::init(), options);
    t.process_start().unwrap();
    t.process_line("Name;Age").unwrap();
    t.process_line("Ann;41").unwrap();
    t.process_end().unwrap();
    let (create_table, inserts) = done_sinks(t);
    assert_eq!(create_table.paragraphs, [
        "create table people (\n name text,\n age text\n);\n"
    ]);
    assert_eq!(inserts.paragraphs, [
        "insert into people (name, age) values ('Ann', '41');\n"
    ]);
}

#[test]
fn multi_char_separator() {
    let options = Txt2SqlOptions::new("||".to_string(), "t".to_string());
    let mut t = Txt2Sql::init(VecWritterFactory::init(), options);
    t.process_start().unwrap();
    t.process_line("a||b").unwrap();
    t.process_line("x|y||z").unwrap();
    t.process_end().unwrap();
    let (create_table, inserts) = done_sinks(t);
    assert_eq!(create_table.paragraphs, ["create table t (\n a text,\n b text\n);\n"]);
    assert_eq!(inserts.paragraphs, ["insert into t (a, b) values ('x|y', 'z');\n"]);
}

#[test]
fn empty_separator_keeps_line_whole() {
    let options = Txt2SqlOptions::new(String::new(), "t".to_string());
    let mut t = Txt2Sql::init(VecWritterFactory::init(), options);
    t.process_start().unwrap();
    t.process_line("One Header").unwrap();
    t.process_end().unwrap();
    let (create_table, _) = done_sinks(t);
    assert_eq!(create_table.paragraphs, ["create table t (\n one_header text\n);\n"]);
}

#[test]
fn empty_header_line_gives_one_empty_column() {
    let mut t = default_converter();
    t.process_start().unwrap();
    t.process_line("").unwrap();
    t.process_end().unwrap();
    let (create_table, _) = done_sinks(t);
    assert_eq!(create_table.paragraphs, ["create table table1 (\n  text\n);\n"]);
}

#[test]
fn feed_line_before_start_fails() {
    let mut t = default_converter();
    assert_eq!(t.process_line("a|b"), Err(Txt2SqlError::ProtocolViolation));
    assert_eq!(t.owf.opened.len(), 0);
}

#[test]
fn finish_before_start_fails() {
    let mut t = default_converter();
    assert_eq!(t.process_end(), Err(Txt2SqlError::ProtocolViolation));
    assert_eq!(t.owf.opened.len(), 0);
}

#[test]
fn start_twice_fails() {
    let mut t = default_converter();
    t.process_start().unwrap();
    assert_eq!(t.process_start(), Err(Txt2SqlError::ProtocolViolation));
    assert_eq!(t.owf.opened, ["create_table", "inserts"]);
    match &t.status {
        Txt2SqlStatus::Started(m) => {
            assert_eq!(m.create_table.paragraphs.len(), 0);
            assert_eq!(m.inserts.paragraphs.len(), 0);
        }
        _ => panic!("converter left the started state"),
    }
}

#[test]
fn calls_after_done_fail() {
    let mut t = default_converter();
    t.process_start().unwrap();
    t.process_line("h").unwrap();
    t.process_end().unwrap();
    assert_eq!(t.process_start(), Err(Txt2SqlError::ProtocolViolation));
    assert_eq!(t.process_line("x"), Err(Txt2SqlError::ProtocolViolation));
    assert_eq!(t.process_end(), Err(Txt2SqlError::ProtocolViolation));
}

#[test]
fn write_after_close_fails() {
    let mut f = VecWritterFactory::init();
    let mut w = f.open("create_table").unwrap();
    w.write("first").unwrap();
    w.close();
    assert_eq!(w.write("second"), Err(Txt2SqlError::SinkClosed));
    assert_eq!(w.paragraphs, ["first"]);
    assert!(!w.open);
}

#[test]
fn close_is_idempotent() {
    let mut f = VecWritterFactory::init();
    let mut w = f.open("inserts").unwrap();
    w.write("kept").unwrap();
    w.close();
    w.close();
    assert_eq!(w.paragraphs, ["kept"]);
    assert!(!w.open);
}

#[test]
fn factory_records_opened_names() {
    let mut f = VecWritterFactory::init();
    f.open("create_table").unwrap();
    f.open("inserts").unwrap();
    f.end();
    f.end();
    assert_eq!(f.opened, ["create_table", "inserts"]);
}

#[test]
fn sanitize_exact_values() {
    assert_eq!(txt2sql::sqltext::sanitize("Column 2"), "column_2");
    assert_eq!(txt2sql::sqltext::sanitize("A-B c.d"), "a_b_c_d");
    assert_eq!(txt2sql::sqltext::sanitize("ok_name9"), "ok_name9");
    assert_eq!(txt2sql::sqltext::sanitize("  "), "__");
    assert_eq!(txt2sql::sqltext::sanitize(""), "");
    assert_eq!(txt2sql::sqltext::sanitize("Äö"), "__");
}

#[test]
fn escape_exact_values() {
    assert_eq!(txt2sql::sqltext::escape("O'Donnell"), "O''Donnell");
    assert_eq!(txt2sql::sqltext::escape("''"), "''''");
    assert_eq!(txt2sql::sqltext::escape("plain"), "plain");
    assert_eq!(txt2sql::sqltext::escape(""), "");
}

#[test]
fn escape_round_trip_on_values() {
    for raw in ["O'Donnell", "'", "''", "a'b'c", "no quotes", ""] {
        let escaped = txt2sql::sqltext::escape(raw);
        assert_eq!(escaped.replace("''", "'"), raw);
    }
}

#[test]
fn split_exact_values() {
    let parts = txt2sql::sqltext::split_line("a|b||c", "|");
    assert_eq!(parts, ["a", "b", "", "c"]);
    assert_eq!(txt2sql::sqltext::split_line("", "|"), [""]);
    assert_eq!(txt2sql::sqltext::split_line("abc", "|"), ["abc"]);
    assert_eq!(txt2sql::sqltext::split_line("|a|", "|"), ["", "a", ""]);
    assert_eq!(txt2sql::sqltext::split_line("aXXb", "XX"), ["a", "b"]);
}

#[test]
fn build_statements_exact_values() {
    let cols = vec!["a".to_string(), "b".to_string()];
    assert_eq!(
        txt2sql::sqltext::build_create_table("t", &cols),
        "create table t (\n a text,\n b text\n);\n"
    );
    let vals = vec!["1".to_string(), "o'k".to_string()];
    assert_eq!(
        txt2sql::sqltext::build_insert("t", &cols, &vals),
        "insert into t (a, b) values ('1', 'o''k');\n"
    );
}

#[test]
fn process_lines_whole_run() {
    let lines: Vec<String> = ["column1|Column 2", "data11|data12", "data21|O'Donnell"]
        .iter()
        .map(|s| s.to_string())
        .collect();
    let t = process_lines(VecWritterFactory::init(), Txt2SqlOptions::default(), &lines).unwrap();
    assert_eq!(t.owf.opened, ["create_table", "inserts"]);
    let (create_table, inserts) = done_sinks(t);
    assert_eq!(create_table.paragraphs, [
        "create table table1 (\n column1 text,\n column_2 text\n);\n"
    ]);
    assert_eq!(inserts.paragraphs, [
        "insert into table1 (column1, column_2) values ('data11', 'data12');\n",
        "insert into table1 (column1, column_2) values ('data21', 'O''Donnell');\n"
    ]);
}

#[test]
fn process_lines_no_lines() {
    let lines: Vec<String> = Vec::new();
    let t = process_lines(VecWritterFactory::init(), Txt2SqlOptions::default(), &lines).unwrap();
    let (create_table, inserts) = done_sinks(t);
    assert_eq!(create_table.paragraphs.len(), 0);
    assert_eq!(inserts.paragraphs.len(), 0);
}

