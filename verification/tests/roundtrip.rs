use csvsql::export::export_result;
use csvsql::ingest::load_table_from_loader;
use csvsql::loader::CsvLoader;
use csvsql::query::run_query;

#[test]
fn export_then_reload_reproduces_table() {
    // load a source, export `SELECT * FROM t`, and load the exported bytes as
    // a fresh source: same row count, same column names
    let mut conn = rusqlite::Connection::open_in_memory().unwrap();
    let text = "Unit Price,Unit Price,Qty\n1.5,2.5,3\n4,,6\n";
    let loader = CsvLoader::new("first".to_string(), text.as_bytes().to_vec(), b',');
    let first = load_table_from_loader(&mut conn, "t", loader).unwrap();
    assert_eq!(first.column_names, vec!["unit_price", "unit_price_1", "qty"]);

    let q = run_query(&conn, "SELECT * FROM t").unwrap();
    let bytes = export_result(&q).unwrap();

    let mut conn2 = rusqlite::Connection::open_in_memory().unwrap();
    let reloaded = CsvLoader::new("second".to_string(), bytes, b',');
    let second = load_table_from_loader(&mut conn2, "t", reloaded).unwrap();

    assert_eq!(second.rows_loaded, first.rows_loaded);
    assert_eq!(second.column_names, first.column_names);
    let q2 = run_query(&conn2, "SELECT * FROM t").unwrap();
    assert_eq!(q2.rows, q.rows);
}

#[test]
fn export_bytes_hold_header_and_rows() {
    let mut conn = rusqlite::Connection::open_in_memory().unwrap();
    let text = "a,b\n1,2\n";
    let loader = CsvLoader::new("mem".to_string(), text.as_bytes().to_vec(), b',');
    load_table_from_loader(&mut conn, "t", loader).unwrap();
    let q = run_query(&conn, "SELECT a, b FROM t").unwrap();
    let bytes = export_result(&q).unwrap();
    assert_eq!(String::from_utf8(bytes).unwrap(), "a,b\n1,2\n");
}
