//! Running one SQL statement: prepare, read the column metadata, and walk the
//! result set, coercing every cell to display text.

use vstd::prelude::*;
use crate::db::{conn_prepare, stmt_column_names, stmt_query, rows_next_cells, cell_to_text};
use crate::errors::QueryError;

verus! {

/// One statement's full result: the column names and every row's cells as
/// display text.
#[derive(Debug)]
pub struct QueryResult {
    pub columns: Vec<String>,
    pub rows: Vec<Vec<String>>,
}

impl QueryResult {
    /// Every row is as wide as the column list.
    pub open spec fn well_formed(&self) -> bool {
        forall|i: int|
            0 <= i < self.rows@.len() ==> (#[trigger] self.rows@[i])@.len() == self.columns@.len()
    }
}

/// Executes one statement and collects its result set.
///
/// Row iteration stops quietly at the first row the engine refuses, as the
/// interactive loop does; a cell whose bytes are not valid text fails the
/// query.
pub fn run_query(conn: &rusqlite::Connection, sql: &str) -> (r: Result<QueryResult, QueryError>)
    ensures
        r matches Ok(q) ==> q.well_formed(),
{
    let mut stmt = match conn_prepare(conn, sql) {
        Ok(stmt) => stmt,
        Err(e) => {
            return Err(e);
        },
    };
    let columns = stmt_column_names(&stmt);
    let ncols = columns.len();
    let mut rows: Vec<Vec<String>> = Vec::new();
    let mut result_rows = match stmt_query(&mut stmt) {
        Ok(rows) => rows,
        Err(e) => {
            return Err(e);
        },
    };
    while rows.len() < usize::MAX
        invariant
            ncols == columns@.len(),
            forall|i: int| 0 <= i < rows@.len() ==> (#[trigger] rows@[i])@.len() == ncols,
        ensures
            forall|i: int| 0 <= i < rows@.len() ==> (#[trigger] rows@[i])@.len() == ncols,
        decreases usize::MAX - rows@.len(),
    {
        let cells = match rows_next_cells(&mut result_rows, ncols) {
            Ok(Some(cells)) => cells,
            Ok(None) => {
                break ;
            },
            Err(_) => {
                break ;
            },
        };
        let mut textrow: Vec<String> = Vec::new();
        let cell_count = cells.len();
        let mut remaining = cells;
        let mut taken: usize = 0;
        while taken < cell_count
            invariant
                cell_count == taken + remaining@.len(),
                textrow@.len() == taken,
            decreases cell_count - taken,
        {
            let cell = remaining.remove(0);
            match cell_to_text(cell) {
                Ok(text) => {
                    textrow.push(text);
                },
                Err(e) => {
                    return Err(e);
                },
            }
            taken += 1;
        }
        rows.push(textrow);
    }
    Ok(QueryResult { columns, rows })
}

} // verus!
