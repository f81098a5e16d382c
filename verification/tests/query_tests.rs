use csvsql::errors::QueryError;
use csvsql::query::run_query;

#[test]
fn query_coerces_cells_to_text() {
    let conn = rusqlite::Connection::open_in_memory().unwrap();
    let q = run_query(&conn, "SELECT NULL, 7, -42, 'x', 1.5").unwrap();
    assert_eq!(q.rows, vec![vec!["null", "7", "-42", "x", "1.5"]]);
}

#[test]
fn query_reports_column_names() {
    let conn = rusqlite::Connection::open_in_memory().unwrap();
    let q = run_query(&conn, "SELECT 1 AS one, 2 AS two").unwrap();
    assert_eq!(q.columns, vec!["one", "two"]);
    assert_eq!(q.rows, vec![vec!["1", "2"]]);
}

#[test]
fn invalid_sql_is_a_query_error() {
    let conn = rusqlite::Connection::open_in_memory().unwrap();
    let err = run_query(&conn, "SELEC nonsense").unwrap_err();
    assert!(matches!(err, QueryError::Engine { .. }));
}

#[test]
fn blob_cells_decode_as_text() {
    let conn = rusqlite::Connection::open_in_memory().unwrap();
    let q = run_query(&conn, "SELECT x'68656c6c6f'").unwrap();
    assert_eq!(q.rows, vec![vec!["hello"]]);
}

#[test]
fn invalid_blob_text_is_a_cell_error() {
    let conn = rusqlite::Connection::open_in_memory().unwrap();
    let err = run_query(&conn, "SELECT x'ff00'").unwrap_err();
    assert!(matches!(err, QueryError::BadCell));
}
