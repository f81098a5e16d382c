//! The query adapter's trusted boundary: declarations and thin wrappers for
//! the embedded relational engine's connection, statements and result rows,
//! plus the text coercion of result cells.

use vstd::prelude::*;
use rusqlite::types::ValueRef;
use vstd::utf8::{valid_utf8, decode_utf8};
use crate::errors::{IngestError, QueryError};
use crate::numbers::{dec_i64_spec, i64_to_dec_chars};
use crate::text::chars_to_string;
use vstd::string::StringExecFns;

verus! {

#[verifier::external_type_specification]
#[verifier::external_body]
pub struct ExConnection(rusqlite::Connection);

#[verifier::external_type_specification]
#[verifier::external_body]
pub struct ExTransaction<'a>(rusqlite::Transaction<'a>);

#[verifier::external_type_specification]
#[verifier::external_body]
pub struct ExStatement<'a>(rusqlite::Statement<'a>);

#[verifier::external_type_specification]
#[verifier::external_body]
pub struct ExRows<'a>(rusqlite::Rows<'a>);

/// Relies on rusqlite::Connection::execute: runs one parameterless statement.
#[verifier::external_body]
pub(crate) fn conn_execute(conn: &rusqlite::Connection, sql: &str) -> (r: Result<(), IngestError>)
    ensures
        r matches Err(e) ==> e is Engine,
{
    match conn.execute(sql, []) {
        Ok(_) => Ok(()),
        Err(e) => Err(IngestError::Engine { detail: e.to_string() }),
    }
}

/// Relies on rusqlite::Connection::transaction: opens one transaction that
/// rolls back when dropped without a commit.
#[verifier::external_body]
pub(crate) fn conn_transaction<'a>(conn: &'a mut rusqlite::Connection) -> (r: Result<
    rusqlite::Transaction<'a>,
    IngestError,
>)
    ensures
        r matches Err(e) ==> e is Engine,
{
    match conn.transaction() {
        Ok(tx) => Ok(tx),
        Err(e) => Err(IngestError::Engine { detail: e.to_string() }),
    }
}

/// Relies on rusqlite::Connection::prepare (through the transaction's deref):
/// compiles one statement inside the transaction.
#[verifier::external_body]
pub(crate) fn tx_prepare<'a>(tx: &'a rusqlite::Transaction<'a>, sql: &str) -> (r: Result<
    rusqlite::Statement<'a>,
    IngestError,
>)
    ensures
        r matches Err(e) ==> e is Engine,
{
    match tx.prepare(sql) {
        Ok(stmt) => Ok(stmt),
        Err(e) => Err(IngestError::Engine { detail: e.to_string() }),
    }
}

/// Relies on rusqlite::Statement::execute with one text parameter per
/// placeholder.
#[verifier::external_body]
pub(crate) fn stmt_execute_values(stmt: &mut rusqlite::Statement, values: &Vec<String>) -> (r:
    Result<(), IngestError>)
    ensures
        r matches Err(e) ==> e is Engine,
{
    match stmt.execute(rusqlite::params_from_iter(values.iter())) {
        Ok(_) => Ok(()),
        Err(e) => Err(IngestError::Engine { detail: e.to_string() }),
    }
}

/// Relies on rusqlite::Transaction::commit.
#[verifier::external_body]
pub(crate) fn tx_commit(tx: rusqlite::Transaction) -> (r: Result<(), IngestError>)
    ensures
        r matches Err(e) ==> e is Engine,
{
    match tx.commit() {
        Ok(_) => Ok(()),
        Err(e) => Err(IngestError::Engine { detail: e.to_string() }),
    }
}

/// Relies on rusqlite::Connection::prepare: compiles one statement, failing
/// on invalid SQL.
#[verifier::external_body]
pub(crate) fn conn_prepare<'a>(conn: &'a rusqlite::Connection, sql: &str) -> (r: Result<
    rusqlite::Statement<'a>,
    QueryError,
>)
    ensures
        r matches Err(e) ==> e is Engine,
{
    match conn.prepare(sql) {
        Ok(stmt) => Ok(stmt),
        Err(e) => Err(QueryError::Engine { detail: e.to_string() }),
    }
}

/// Relies on rusqlite::Statement::column_names: the result column names of a
/// prepared statement, in order.
#[verifier::external_body]
pub(crate) fn stmt_column_names(stmt: &rusqlite::Statement) -> (r: Vec<String>) {
    stmt.column_names().into_iter().map(|s| s.to_string()).collect()
}

/// Relies on rusqlite::Statement::query with no parameters: begins result-row
/// iteration.
#[verifier::external_body]
pub(crate) fn stmt_query<'s>(stmt: &'s mut rusqlite::Statement) -> (r: Result<
    rusqlite::Rows<'s>,
    QueryError,
>)
    ensures
        r matches Err(e) ==> e is Engine,
{
    match stmt.query([]) {
        Ok(rows) => Ok(rows),
        Err(e) => Err(QueryError::Engine { detail: e.to_string() }),
    }
}

/// One result cell, as handed over by the engine: the engine's own real-value
/// rendering is kept as text.
pub enum CellValue {
    /// Engine NULL.
    Null,
    /// An integer value.
    Int(i64),
    /// A real value, already rendered as decimal text.
    Real(String),
    /// Text or blob bytes.
    Bytes(Vec<u8>),
}

/// Relies on rusqlite::Rows::next and rusqlite::Row::get_ref: the next result
/// row's cells, each moved into a plain value.
#[verifier::external_body]
pub(crate) fn rows_next_cells(rows: &mut rusqlite::Rows, ncols: usize) -> (r: Result<
    Option<Vec<CellValue>>,
    QueryError,
>)
    ensures
        r matches Ok(Some(v)) ==> v@.len() == ncols,
{
    let r = rows.next().map_err(|e| QueryError::Engine { detail: e.to_string() })?;
    let row = match r { Some(row) => row, None => return Ok(None) };
    let mut out: Vec<CellValue> = Vec::new();
    for i in 0..ncols {
        out.push(match row.get_ref(i) {
            Ok(ValueRef::Null) => CellValue::Null,
            Ok(ValueRef::Integer(v)) => CellValue::Int(v),
            Ok(ValueRef::Real(v)) => CellValue::Real(v.to_string()),
            Ok(ValueRef::Text(b)) | Ok(ValueRef::Blob(b)) => CellValue::Bytes(b.to_vec()),
            Err(_) => return Err(QueryError::BadCell),
        });
    }
    Ok(Some(out))
}

/// Relies on String::from_utf8: decodes the bytes as UTF-8 text, failing on
/// invalid input.
#[verifier::external_body]
fn bytes_to_string(b: Vec<u8>) -> (r: Result<String, ()>)
    ensures
        match r {
            Ok(s) => valid_utf8(b@) && s@ == decode_utf8(b@),
            Err(_) => !valid_utf8(b@),
        },
{
    match String::from_utf8(b) {
        Ok(s) => Ok(s),
        Err(_) => Err(()),
    }
}

/// The display text of one cell: NULL prints as `null`, numbers in decimal,
/// text and blob bytes as UTF-8; bytes that are not valid UTF-8 fail.
pub open spec fn cell_text_spec(c: CellValue) -> Option<Seq<char>> {
    match c {
        CellValue::Null => Some("null"@),
        CellValue::Int(v) => Some(dec_i64_spec(v as int)),
        CellValue::Real(s) => Some(s@),
        CellValue::Bytes(b) => if valid_utf8(b@) {
            Some(decode_utf8(b@))
        } else {
            None
        },
    }
}

/// Coerces one result cell to its display text.
pub fn cell_to_text(c: CellValue) -> (r: Result<String, QueryError>)
    ensures
        match r {
            Ok(s) => cell_text_spec(c) == Some(s@),
            Err(e) => cell_text_spec(c) is None && e is BadCell,
        },
{
    match c {
        CellValue::Null => Ok(String::from_str("null")),
        CellValue::Int(v) => {
            let digits = i64_to_dec_chars(v);
            Ok(chars_to_string(&digits))
        },
        CellValue::Real(s) => Ok(s),
        CellValue::Bytes(b) => match bytes_to_string(b) {
            Ok(s) => Ok(s),
            Err(_) => Err(QueryError::BadCell),
        },
    }
}

} // verus!
