use csvsql::numbers::{u64_to_dec_chars, i64_to_dec_chars};
use csvsql::query::{run_query, QueryResult};
use csvsql::render::render_vertical;
use csvsql::sqlgen::{create_table_sql, insert_sql, table_name_for, schema_query};
use csvsql::complete::SimpleWordCompleter;

#[test]
fn vertical_render_pads_names() {
    let result = QueryResult {
        columns: vec!["id".to_string(), "name".to_string()],
        rows: vec![
            vec!["1".to_string(), "x".to_string()],
            vec!["2".to_string(), "yy".to_string()],
        ],
    };
    let lines = render_vertical(&result);
    assert_eq!(
        lines,
        vec![
            "------ [ RECORD 1 ] ------",
            "id   | 1",
            "name | x",
            "------ [ RECORD 2 ] ------",
            "id   | 2",
            "name | yy",
        ]
    );
}

#[test]
fn vertical_render_of_empty_result_is_empty() {
    let result = QueryResult { columns: vec!["a".to_string()], rows: vec![] };
    assert!(render_vertical(&result).is_empty());
}

#[test]
fn table_names_count_from_one() {
    assert_eq!(table_name_for(0, 1), "t");
    assert_eq!(table_name_for(0, 2), "t1");
    assert_eq!(table_name_for(1, 2), "t2");
    assert_eq!(table_name_for(11, 20), "t12");
}

#[test]
fn decimal_rendering_is_exact() {
    assert_eq!(u64_to_dec_chars(0).into_iter().collect::<String>(), "0");
    assert_eq!(u64_to_dec_chars(1234567890).into_iter().collect::<String>(), "1234567890");
    assert_eq!(i64_to_dec_chars(-42).into_iter().collect::<String>(), "-42");
    assert_eq!(
        i64_to_dec_chars(i64::MIN).into_iter().collect::<String>(),
        "-9223372036854775808"
    );
    assert_eq!(
        i64_to_dec_chars(i64::MAX).into_iter().collect::<String>(),
        "9223372036854775807"
    );
}

#[test]
fn sql_texts_are_exact() {
    let cols = vec!["a".to_string(), "b".to_string()];
    assert_eq!(create_table_sql("t", &cols), "CREATE TABLE t (\"a\" varchar, \"b\" varchar)");
    assert_eq!(insert_sql("t", 3), "INSERT INTO t VALUES (?, ?, ?)");
    assert_eq!(insert_sql("t", 1), "INSERT INTO t VALUES (?)");
    assert_eq!(schema_query(), "SELECT sql AS schema FROM sqlite_master WHERE name like 't%'");
}

#[test]
fn completer_offers_words_with_prefix() {
    let completer = SimpleWordCompleter::new(vec![
        "select".to_string(),
        "schema".to_string(),
        "style".to_string(),
    ]);
    let line: Vec<char> = "se".chars().collect();
    let (start, words) = completer.complete(&line, 2);
    assert_eq!(start, 0);
    assert_eq!(words, vec!["select"]);

    let line: Vec<char> = "x.st".chars().collect();
    let (start, words) = completer.complete(&line, 4);
    assert_eq!(start, 2);
    assert_eq!(words, vec!["style"]);

    let line: Vec<char> = "a ".chars().collect();
    let (start, words) = completer.complete(&line, 2);
    assert_eq!(start, 2);
    assert_eq!(words, vec!["select", "schema", "style"]);
}

#[test]
fn query_result_rows_match_column_count() {
    let conn = rusqlite::Connection::open_in_memory().unwrap();
    let q = run_query(&conn, "SELECT 1, 2, 3").unwrap();
    assert_eq!(q.columns.len(), 3);
    for row in &q.rows {
        assert_eq!(row.len(), q.columns.len());
    }
}
