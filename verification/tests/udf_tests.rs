use csvsql::errors::UdfError;
use csvsql::udf::{compile_pattern, udf_regexp, udf_regexp_extract};
use rusqlite::functions::FunctionFlags;

#[test]
fn extract_expands_capture_groups() {
    let re = compile_pattern("(\\d+)").unwrap();
    assert_eq!(udf_regexp_extract(&re, "abc123", "$1"), "123");
}

#[test]
fn extract_returns_empty_on_no_match() {
    let re = compile_pattern("(\\d+)").unwrap();
    assert_eq!(udf_regexp_extract(&re, "abc", "$1"), "");
}

#[test]
fn regexp_reports_matches() {
    let re = compile_pattern("^a+b$").unwrap();
    assert!(udf_regexp(&re, "aaab"));
    assert!(!udf_regexp(&re, "aaac"));
}

#[test]
fn invalid_pattern_is_refused() {
    assert!(matches!(compile_pattern("("), Err(UdfError::InvalidPattern)));
}

fn install_udfs(c: &rusqlite::Connection) -> rusqlite::Result<()> {
    c.create_scalar_function(
        "regexp_extract",
        3,
        FunctionFlags::SQLITE_UTF8 | FunctionFlags::SQLITE_DETERMINISTIC,
        |ctx| {
            let re = ctx.get_or_create_aux(
                0,
                |vr| -> Result<_, Box<dyn std::error::Error + Send + Sync + 'static>> {
                    compile_pattern(vr.as_str()?).map_err(|_| "invalid regular expression".into())
                },
            )?;
            let value = ctx.get::<Box<str>>(1)?;
            let replacement = ctx.get::<Box<str>>(2)?;
            Ok(udf_regexp_extract(&re, &value, &replacement))
        },
    )?;
    c.create_scalar_function(
        "regexp",
        2,
        FunctionFlags::SQLITE_UTF8 | FunctionFlags::SQLITE_DETERMINISTIC,
        |ctx| {
            let re = ctx.get_or_create_aux(
                0,
                |vr| -> Result<_, Box<dyn std::error::Error + Send + Sync + 'static>> {
                    compile_pattern(vr.as_str()?).map_err(|_| "invalid regular expression".into())
                },
            )?;
            let value = ctx.get::<Box<str>>(1)?;
            Ok(udf_regexp(&re, &value))
        },
    )
}

#[test]
fn installed_extract_runs_in_sql() {
    let conn = rusqlite::Connection::open_in_memory().unwrap();
    install_udfs(&conn).unwrap();
    let q = csvsql::query::run_query(
        &conn,
        "SELECT regexp_extract('(\\d+)', 'abc123', '$1'), regexp_extract('(\\d+)', 'abc', '$1')",
    )
    .unwrap();
    assert_eq!(q.rows, vec![vec!["123", ""]]);
}

#[test]
fn installed_regexp_runs_in_sql() {
    let conn = rusqlite::Connection::open_in_memory().unwrap();
    install_udfs(&conn).unwrap();
    let q = csvsql::query::run_query(&conn, "SELECT regexp('\\d', 'a1'), regexp('\\d', 'ab')")
        .unwrap();
    assert_eq!(q.rows, vec![vec!["1", "0"]]);
}
