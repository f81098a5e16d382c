//! The ingest pipeline: drives one source end-to-end — builds the table
//! schema from normalized headers, opens one transaction, streams and
//! reconciles every record, and commits. A record wider than the table is
//! fatal; a narrower one is padded with empty values.

use vstd::prelude::*;
use crate::errors::IngestError;
use crate::text::{lossy_utf8, bytes_to_text_lossy};
use crate::loader::{Loader, Record};
use crate::names::{normalize_headers, normalized_header_spec, lemma_dedup_unique};
use crate::sqlgen::{create_table_sql, insert_sql};
use crate::db::{conn_execute, conn_transaction, tx_prepare, stmt_execute_values, tx_commit};

verus! {

/// Reconciles one record against the table width: a record wider than the
/// table is rejected; a narrower one is extended with empty values. Kept
/// fields are decoded leniently to text.
pub fn reconcile_record(fields: &Vec<Vec<u8>>, width: usize) -> (r: Option<Vec<String>>)
    ensures
        match r {
            Some(vals) => fields@.len() <= width && vals@.len() == width && (forall|i: int|
                0 <= i < fields@.len() ==> (#[trigger] vals@[i])@ == lossy_utf8(fields@[i]@))
                && (forall|i: int|
                fields@.len() <= i < width ==> (#[trigger] vals@[i])@ == Seq::<char>::empty()),
            None => fields@.len() > width,
        },
{
    let w = fields.len();
    if w > width {
        return None;
    }
    let mut vals: Vec<String> = Vec::new();
    for i in 0..w
        invariant
            w == fields@.len() <= width,
            vals@.len() == i,
            forall|k: int| 0 <= k < i ==> (#[trigger] vals@[k])@ == lossy_utf8(fields@[k]@),
    {
        vals.push(bytes_to_text_lossy(&fields[i]));
    }
    let mut j = w;
    while j < width
        invariant
            w <= j <= width,
            w == fields@.len(),
            vals@.len() == j,
            forall|k: int| 0 <= k < w ==> (#[trigger] vals@[k])@ == lossy_utf8(fields@[k]@),
            forall|k: int| w <= k < j ==> (#[trigger] vals@[k])@ == Seq::<char>::empty(),
        decreases width - j,
    {
        vals.push(String::new());
        j += 1;
    }
    Some(vals)
}

/// What one load reports back: the number of rows inserted and the table's
/// resolved column names.
#[derive(Debug)]
pub struct LoadSummary {
    pub rows_loaded: u64,
    pub column_names: Vec<String>,
}

/// Loads every record of the source into a fresh table.
///
/// On success the table's column names are exactly the namer's output for the
/// source's header row, every record of the source was no wider than the
/// table, and the number of rows loaded is the number of records. A record
/// wider than the table fails the whole load with its 1-based row index and
/// raw fields, every earlier record having fit; the transaction wrapping the
/// inserts is then dropped without a commit, rolling them back.
pub fn load_table_from_loader<L: Loader>(
    conn: &mut rusqlite::Connection,
    table_name: &str,
    loader: L,
) -> (r: Result<LoadSummary, IngestError>)
    ensures
        match r {
            Ok(summary) => loader.raw_header() is Some && summary.column_names@.map_values(
                |s: String| s@,
            ) == normalized_header_spec(loader.raw_header().unwrap()) && (forall|i: int, j: int|
                0 <= i < j < summary.column_names@.len() ==> (#[trigger] summary.column_names@[i])@
                    != (#[trigger] summary.column_names@[j])@) && summary.rows_loaded
                == loader.pending().len() && (forall|j: int|
                0 <= j < loader.pending().len() ==> (#[trigger] loader.pending()[j]).len()
                    <= loader.raw_header().unwrap().len()),
            Err(IngestError::Schema { row_index, fields }) => loader.raw_header() is Some && 1
                <= row_index && row_index - 1 < loader.pending().len() && fields@.map_values(
                |f: Vec<u8>| f@,
            ) == loader.pending()[row_index - 1] && loader.pending()[row_index - 1].len()
                > loader.raw_header().unwrap().len() && (forall|j: int|
                0 <= j < row_index - 1 ==> (#[trigger] loader.pending()[j]).len()
                    <= loader.raw_header().unwrap().len()),
            Err(IngestError::Overflow) => loader.pending().len() > u64::MAX,
            Err(IngestError::Parse { .. }) => true,
            Err(IngestError::Engine { .. }) => true,
        },
{
    let mut ldr = loader;
    let ghost orig_header = ldr.raw_header();
    let ghost orig_pending = ldr.pending();

    let header = match ldr.raw_fields() {
        Ok(h) => h,
        Err(e) => {
            return Err(e);
        },
    };
    let cols = normalize_headers(&header);
    proof {
        lemma_dedup_unique(
            header@.map_values(|s: String| s@).map_values(|s: Seq<char>| crate::names::normalize_spec(s)),
        );
        assert(cols@.len() == orig_header.unwrap().len());
        assert(forall|i: int, j: int|
            0 <= i < j < cols@.len() ==> (#[trigger] cols@[i])@ != (#[trigger] cols@[j])@) by {
            assert forall|i: int, j: int|
                0 <= i < j < cols@.len() implies (#[trigger] cols@[i])@ != (#[trigger] cols@[j])@ by {
                let views = cols@.map_values(|s: String| s@);
                assert(views[i] == cols@[i]@);
                assert(views[j] == cols@[j]@);
            }
        }
    }
    let col_count = cols.len();

    let create_sql = create_table_sql(table_name, &cols);
    match conn_execute(conn, create_sql.as_str()) {
        Ok(_) => (),
        Err(e) => {
            return Err(e);
        },
    }
    let ins_sql = insert_sql(table_name, col_count);

    let tx = match conn_transaction(conn) {
        Ok(tx) => tx,
        Err(e) => {
            return Err(e);
        },
    };
    let mut num_rows: u64 = 0;
    {
        let mut stmt = match tx_prepare(&tx, ins_sql.as_str()) {
            Ok(stmt) => stmt,
            Err(e) => {
                return Err(e);
            },
        };
        loop
            invariant
                orig_header == loader.raw_header(),
                orig_pending == loader.pending(),
                ldr.raw_header() == orig_header,
                orig_header is Some,
                num_rows <= orig_pending.len(),
                ldr.pending() == orig_pending.skip(num_rows as int),
                cols@.len() == col_count == orig_header.unwrap().len(),
                forall|j: int|
                    0 <= j < num_rows ==> (#[trigger] orig_pending[j]).len() <= col_count,
            ensures
                num_rows == orig_pending.len(),
                forall|j: int|
                    0 <= j < orig_pending.len() ==> (#[trigger] orig_pending[j]).len()
                        <= col_count,
            decreases orig_pending.len() - num_rows,
        {
            let ghost pend_before = ldr.pending();
            match ldr.next_record() {
                None => {
                    proof {
                        assert(orig_pending.len() - num_rows == 0);
                    }
                    break ;
                },
                Some(Err(e)) => {
                    return Err(e);
                },
                Some(Ok(rec)) => {
                    let fields = rec.iter();
                    proof {
                        assert(fields@.map_values(|f: Vec<u8>| f@) =~= rec.fields_view());
                    }
                    if num_rows == u64::MAX {
                        proof {
                            assert(pend_before.len() > 0);
                            assert(pend_before == orig_pending.skip(num_rows as int));
                            assert(orig_pending.len() > u64::MAX);
                        }
                        return Err(IngestError::Overflow);
                    }
                    proof {
                        assert(pend_before[0] == orig_pending[num_rows as int]);
                        assert(num_rows < orig_pending.len());
                    }
                    match reconcile_record(&fields, col_count) {
                        None => {
                            proof {
                                assert(fields@.map_values(|f: Vec<u8>| f@).len()
                                    == fields@.len());
                                assert(orig_pending[num_rows as int].len() == fields@.len());
                                assert(fields@.len() > col_count);
                            }
                            return Err(
                                IngestError::Schema { row_index: num_rows + 1, fields },
                            );
                        },
                        Some(vals) => {
                            match stmt_execute_values(&mut stmt, &vals) {
                                Ok(_) => (),
                                Err(e) => {
                                    return Err(e);
                                },
                            }
                        },
                    }
                    num_rows = num_rows + 1;
                    proof {
                        assert(pend_before.drop_first() =~= orig_pending.skip(num_rows as int));
                    }
                },
            }
        }
    }
    match tx_commit(tx) {
        Ok(_) => (),
        Err(e) => {
            return Err(e);
        },
    }
    Ok(LoadSummary { rows_loaded: num_rows, column_names: cols })
}

} // verus!
