use csvsql::errors::IngestError;
use csvsql::ingest::{load_table_from_loader, reconcile_record};
use csvsql::loader::{CsvLoader, Loader};
use csvsql::query::run_query;
use csvsql::sqlgen::table_name_for;

fn memory_loader(text: &str) -> CsvLoader {
    CsvLoader::new("memory".to_string(), text.as_bytes().to_vec(), b',')
}

#[test]
fn load_pads_short_rows() {
    // header `a,a,b`, one full row and one short row
    let mut conn = rusqlite::Connection::open_in_memory().unwrap();
    let loader = memory_loader("a,a,b\n1,2,3\n4,5\n");
    let summary = load_table_from_loader(&mut conn, "t", loader).unwrap();
    assert_eq!(summary.rows_loaded, 2);
    assert_eq!(summary.column_names, vec!["a", "a_1", "b"]);
    let q = run_query(&conn, "SELECT a, a_1, b FROM t").unwrap();
    assert_eq!(q.columns, vec!["a", "a_1", "b"]);
    assert_eq!(q.rows, vec![vec!["1", "2", "3"], vec!["4", "5", ""]]);
}

#[test]
fn load_rejects_wide_row_and_rolls_back() {
    let mut conn = rusqlite::Connection::open_in_memory().unwrap();
    let loader = memory_loader("a,b\n1,2\n3,4,5\n6,7\n");
    let err = load_table_from_loader(&mut conn, "t", loader).unwrap_err();
    match err {
        IngestError::Schema { row_index, fields } => {
            assert_eq!(row_index, 2);
            assert_eq!(fields, vec![b"3".to_vec(), b"4".to_vec(), b"5".to_vec()]);
        },
        other => panic!("expected a schema failure, got {:?}", other),
    }
    // the table was created, but the transaction was rolled back
    let q = run_query(&conn, "SELECT count(*) FROM t").unwrap();
    assert_eq!(q.rows, vec![vec!["0"]]);
}

#[test]
fn load_two_sources_into_numbered_tables() {
    let mut conn = rusqlite::Connection::open_in_memory().unwrap();
    let names = ["x,y\n1,2\n", "x,x\n3,4\n"];
    let mut cols = Vec::new();
    for (idx, text) in names.iter().enumerate() {
        let table = table_name_for(idx as u64, names.len() as u64);
        let loader = memory_loader(text);
        let summary = load_table_from_loader(&mut conn, &table, loader).unwrap();
        cols.push(summary.column_names);
    }
    assert_eq!(cols[0], vec!["x", "y"]);
    assert_eq!(cols[1], vec!["x", "x_1"]);
    let q1 = run_query(&conn, "SELECT x, y FROM t1").unwrap();
    assert_eq!(q1.rows, vec![vec!["1", "2"]]);
    let q2 = run_query(&conn, "SELECT x, x_1 FROM t2").unwrap();
    assert_eq!(q2.rows, vec![vec!["3", "4"]]);
}

#[test]
fn reconcile_pads_with_empty_values() {
    let fields = vec![b"x".to_vec()];
    let vals = reconcile_record(&fields, 3).unwrap();
    assert_eq!(vals, vec!["x", "", ""]);
}

#[test]
fn reconcile_keeps_exact_width() {
    let fields = vec![b"x".to_vec(), b"y".to_vec()];
    let vals = reconcile_record(&fields, 2).unwrap();
    assert_eq!(vals, vec!["x", "y"]);
}

#[test]
fn reconcile_rejects_wide_record() {
    let fields = vec![b"x".to_vec(), b"y".to_vec()];
    assert!(reconcile_record(&fields, 1).is_none());
}

#[test]
fn loader_reports_progress_in_bytes() {
    let text = "a,b\n1,2\n";
    let mut loader = memory_loader(text);
    assert_eq!(loader.progress_size(), text.len() as u64);
    assert_eq!(loader.progress_position(), 0);
    assert_eq!(loader.name(), "memory");
    let header = loader.raw_fields().unwrap();
    assert_eq!(header, vec!["a", "b"]);
    let rec = loader.next_record().unwrap().unwrap();
    assert!(loader.next_record().is_none());
    assert_eq!(loader.progress_position(), text.len() as u64);
    drop(rec);
}

#[test]
fn schema_error_message_names_row_and_fields() {
    let mut conn = rusqlite::Connection::open_in_memory().unwrap();
    let loader = memory_loader("a,b\n1,2\n3,4,5\n");
    let err = load_table_from_loader(&mut conn, "t", loader).unwrap_err();
    assert_eq!(err.message(), "too many fields on row 2, fields: 3, 4, 5");
}

#[test]
fn unreadable_header_is_a_parse_error() {
    let mut conn = rusqlite::Connection::open_in_memory().unwrap();
    let mut data = b"a,".to_vec();
    data.push(0xff);
    data.extend_from_slice(b"\n1,2\n");
    let loader = CsvLoader::new("memory".to_string(), data, b',');
    let err = load_table_from_loader(&mut conn, "t", loader).unwrap_err();
    assert!(matches!(err, IngestError::Parse { .. }));
}

#[test]
fn refused_statement_is_an_engine_error() {
    // an unusable table name makes the CREATE TABLE statement fail
    let mut conn = rusqlite::Connection::open_in_memory().unwrap();
    let loader = memory_loader("a\n1\n");
    let err = load_table_from_loader(&mut conn, "1 2", loader).unwrap_err();
    assert!(matches!(err, IngestError::Engine { .. }));
}

#[test]
fn load_keeps_non_ascii_text() {
    let mut conn = rusqlite::Connection::open_in_memory().unwrap();
    let loader = memory_loader("name\ncaf\u{e9}\n");
    let summary = load_table_from_loader(&mut conn, "t", loader).unwrap();
    assert_eq!(summary.rows_loaded, 1);
    let q = run_query(&conn, "SELECT name FROM t").unwrap();
    assert_eq!(q.rows, vec![vec!["caf\u{e9}"]]);
}
