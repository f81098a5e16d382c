use csvsql::commands::{
    parse_command, process_line, delimiter_for_flags, Command, ProcessOutcome,
};
use csvsql::errors::CommandError;
use csvsql::ingest::load_table_from_loader;
use csvsql::loader::CsvLoader;
use csvsql::render::OutputStyle;

fn outcome_kind(o: &ProcessOutcome) -> &'static str {
    match o {
        ProcessOutcome::Table(_) => "table",
        ProcessOutcome::Lines(_) => "lines",
        ProcessOutcome::Export { .. } => "export",
        ProcessOutcome::StyleSet => "style",
    }
}

fn load(conn: &mut rusqlite::Connection, table: &str, text: &str) {
    let loader = CsvLoader::new("mem".to_string(), text.as_bytes().to_vec(), b',');
    load_table_from_loader(conn, table, loader).unwrap();
}

#[test]
fn parse_recognizes_export() {
    match parse_command(".export(out.csv) SELECT * FROM t").unwrap() {
        Command::Export { path, query } => {
            assert_eq!(path, "out.csv");
            assert_eq!(query, "SELECT * FROM t");
        },
        _ => panic!("expected an export command"),
    }
}

#[test]
fn export_path_accepts_word_characters() {
    match parse_command(".export(dat\u{e4}.csv) SELECT 1").unwrap() {
        Command::Export { path, query } => {
            assert_eq!(path, "dat\u{e4}.csv");
            assert_eq!(query, "SELECT 1");
        },
        _ => panic!("expected an export command"),
    }
}

#[test]
fn parse_rejects_malformed_export() {
    assert!(matches!(
        parse_command(".export out.csv SELECT 1"),
        Err(CommandError::ExportSyntax)
    ));
    assert!(matches!(parse_command(".export() SELECT 1"), Err(CommandError::ExportSyntax)));
    assert!(matches!(parse_command(".export(a)SELECT 1"), Err(CommandError::ExportSyntax)));
}

#[test]
fn parse_recognizes_schema_and_styles() {
    assert!(matches!(parse_command(".schema").unwrap(), Command::Schema));
    assert!(matches!(parse_command(".style(table)").unwrap(), Command::Style(OutputStyle::Table)));
    assert!(matches!(
        parse_command(".style(vertical)").unwrap(),
        Command::Style(OutputStyle::Vertical)
    ));
    assert!(matches!(parse_command(".style(wide)"), Err(CommandError::StyleSyntax)));
    assert!(matches!(parse_command("SELECT 1").unwrap(), Command::Query));
}

#[test]
fn vertical_style_prints_labeled_blocks() {
    // `.style(vertical)` then a two-row query: two blocks labeled record 1
    // and record 2, each name padded to the widest column-name width
    let mut conn = rusqlite::Connection::open_in_memory().unwrap();
    load(&mut conn, "t", "id,name\n1,x\n2,y\n3,z\n");

    let mut style = OutputStyle::Table;
    let set = process_line(&conn, ".style(vertical)", &mut style);
    assert!(matches!(set, ProcessOutcome::StyleSet));
    assert_eq!(style, OutputStyle::Vertical);

    match process_line(&conn, "SELECT * FROM t LIMIT 2", &mut style) {
        ProcessOutcome::Lines(lines) => {
            assert_eq!(
                lines,
                vec![
                    "------ [ RECORD 1 ] ------",
                    "id   | 1",
                    "name | x",
                    "------ [ RECORD 2 ] ------",
                    "id   | 2",
                    "name | y",
                ]
            );
        },
        other => panic!("expected vertical lines, got {}", outcome_kind(&other)),
    }
}

#[test]
fn table_style_hands_back_result() {
    let mut conn = rusqlite::Connection::open_in_memory().unwrap();
    load(&mut conn, "t", "a\n1\n");
    let mut style = OutputStyle::Table;
    match process_line(&conn, "SELECT a FROM t", &mut style) {
        ProcessOutcome::Table(q) => {
            assert_eq!(q.columns, vec!["a"]);
            assert_eq!(q.rows, vec![vec!["1"]]);
        },
        other => panic!("expected a table outcome, got {}", outcome_kind(&other)),
    }
}

#[test]
fn process_export_hands_back_bytes() {
    let mut conn = rusqlite::Connection::open_in_memory().unwrap();
    load(&mut conn, "t", "a\n1\n");
    let mut style = OutputStyle::Table;
    match process_line(&conn, ".export(out.csv) SELECT a FROM t", &mut style) {
        ProcessOutcome::Export { path, data } => {
            assert_eq!(path, "out.csv");
            assert_eq!(String::from_utf8(data).unwrap(), "a\n1\n");
        },
        other => panic!("expected an export outcome, got {}", outcome_kind(&other)),
    }
}

#[test]
fn schema_lists_loaded_tables() {
    let mut conn = rusqlite::Connection::open_in_memory().unwrap();
    load(&mut conn, "t", "a\n1\n");
    let mut style = OutputStyle::Table;
    match process_line(&conn, ".schema", &mut style) {
        ProcessOutcome::Table(q) => {
            assert_eq!(q.columns, vec!["schema"]);
            assert_eq!(q.rows, vec![vec!["CREATE TABLE t (\"a\" varchar)"]]);
        },
        other => panic!("expected a table outcome, got {}", outcome_kind(&other)),
    }
}

#[test]
fn bad_command_prints_and_keeps_style() {
    let conn = rusqlite::Connection::open_in_memory().unwrap();
    let mut style = OutputStyle::Table;
    match process_line(&conn, ".style(huge)", &mut style) {
        ProcessOutcome::Lines(lines) => {
            assert_eq!(lines, vec!["must match `.style(table|vertical)`"]);
        },
        other => panic!("expected a message, got {}", outcome_kind(&other)),
    }
    assert_eq!(style, OutputStyle::Table);
}

#[test]
fn bad_sql_prints_and_continues() {
    let conn = rusqlite::Connection::open_in_memory().unwrap();
    let mut style = OutputStyle::Table;
    match process_line(&conn, "SELEC nonsense", &mut style) {
        ProcessOutcome::Lines(lines) => {
            assert_eq!(lines.len(), 1);
            assert!(lines[0].starts_with("query error: "));
        },
        other => panic!("expected a message, got {}", outcome_kind(&other)),
    }
}

#[test]
fn delimiter_flags_select_one_byte() {
    assert_eq!(delimiter_for_flags(false, false, false, false), Some(b','));
    assert_eq!(delimiter_for_flags(true, false, false, false), Some(b','));
    assert_eq!(delimiter_for_flags(false, true, false, false), Some(b'|'));
    assert_eq!(delimiter_for_flags(false, false, true, false), Some(b'\t'));
    assert_eq!(delimiter_for_flags(false, false, false, true), Some(b';'));
    assert_eq!(delimiter_for_flags(true, true, false, false), None);
    assert_eq!(delimiter_for_flags(false, true, true, true), None);
}

#[test]
fn pipe_delimiter_splits_fields() {
    let mut conn = rusqlite::Connection::open_in_memory().unwrap();
    let loader = CsvLoader::new("mem".to_string(), b"a|b\n1|2\n".to_vec(), b'|');
    let summary = load_table_from_loader(&mut conn, "t", loader).unwrap();
    assert_eq!(summary.column_names, vec!["a", "b"]);
    let q = csvsql::query::run_query(&conn, "SELECT a, b FROM t").unwrap();
    assert_eq!(q.rows, vec![vec!["1", "2"]]);
}
