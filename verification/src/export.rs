//! Delimited export of a result set: the header row followed by every data
//! row, encoded in memory through the csv crate; writing the bytes to a file
//! is the caller's business.

use vstd::prelude::*;
use crate::errors::QueryError;
use crate::query::QueryResult;

verus! {

/// Holds the csv crate's writer over an in-memory buffer. The struct is
/// opaque to the verifier: the writer type's own trait bound cannot be
/// declared to it.
#[verifier::external_body]
pub struct CsvWriterBuf {
    inner: csv::Writer<Vec<u8>>,
}

/// The records written to an in-memory writer so far.
pub uninterp spec fn csv_written(w: CsvWriterBuf) -> Seq<Seq<Seq<char>>>;

/// The bytes the csv crate produces for a record sequence.
pub uninterp spec fn csv_encoding_of(records: Seq<Seq<Seq<char>>>) -> Seq<u8>;

/// Relies on csv::Writer::from_writer: a fresh writer over an empty buffer.
#[verifier::external_body]
fn csv_writer_new() -> (w: CsvWriterBuf)
    ensures
        csv_written(w) == Seq::<Seq<Seq<char>>>::empty(),
{
    CsvWriterBuf { inner: csv::Writer::from_writer(Vec::new()) }
}

/// Relies on csv::Writer::write_record: appends one record. Writing into an
/// in-memory buffer cannot fail on I/O, and a record as wide as those already
/// written passes the width check, so success is promised. The requires keeps
/// every record the same width: it rules out the width error, after which the
/// writer would hold the rejected fields and later calls would misbehave.
#[verifier::external_body]
fn csv_write_record(w: &mut CsvWriterBuf, rec: &Vec<String>) -> (r: Result<(), QueryError>)
    requires
        csv_written(*old(w)).len() == 0 || rec@.len() == csv_written(*old(w))[0].len(),
    ensures
        r is Ok,
        csv_written(*final(w)) == csv_written(*old(w)).push(rec@.map_values(|s: String| s@)),
{
    match w.inner.write_record(rec.iter()) {
        Ok(_) => Ok(()),
        Err(e) => Err(QueryError::Engine { detail: e.to_string() }),
    }
}

/// Relies on csv::Writer::into_inner: flushes and hands back the encoded
/// bytes. Flushing into an in-memory buffer cannot fail.
#[verifier::external_body]
fn csv_writer_finish(w: CsvWriterBuf) -> (r: Result<Vec<u8>, QueryError>)
    ensures
        r is Ok,
        r matches Ok(b) ==> b@ == csv_encoding_of(csv_written(w)),
{
    match w.inner.into_inner() {
        Ok(b) => Ok(b),
        Err(e) => Err(QueryError::Engine { detail: e.to_string() }),
    }
}

/// The exported record sequence: the column names first, then every row.
pub open spec fn export_records_spec(q: QueryResult) -> Seq<Seq<Seq<char>>> {
    seq![q.columns.deep_view()] + q.rows.deep_view()
}

/// Encodes a well-formed result set as delimited text: the first record holds
/// the column names, the rest the rows. Encoding into memory cannot fail, so
/// success is promised.
pub fn export_result(q: &QueryResult) -> (r: Result<Vec<u8>, QueryError>)
    requires
        q.well_formed(),
    ensures
        r is Ok,
        r matches Ok(b) ==> b@ == csv_encoding_of(export_records_spec(*q)),
{
    let mut w = csv_writer_new();
    match csv_write_record(&mut w, &q.columns) {
        Ok(_) => (),
        Err(_) => {
            proof {
                assert(false);
            }
            return Err(QueryError::BadCell);
        },
    }
    proof {
        assert(q.columns@.map_values(|s: String| s@) =~= q.columns.deep_view());
        assert(csv_written(w) =~= seq![q.columns.deep_view()] + q.rows.deep_view().take(0));
    }
    let nrows = q.rows.len();
    for i in 0..nrows
        invariant
            nrows == q.rows@.len(),
            q.well_formed(),
            csv_written(w) =~= seq![q.columns.deep_view()] + q.rows.deep_view().take(i as int),
    {
        let ghost before = csv_written(w);
        proof {
            assert(before[0] =~= q.columns.deep_view());
            assert(before[0].len() == q.columns@.len());
            assert(q.rows@[i as int]@.len() == q.columns@.len());
        }
        match csv_write_record(&mut w, &q.rows[i]) {
            Ok(_) => (),
            Err(_) => {
                proof {
                    assert(false);
                }
                return Err(QueryError::BadCell);
            },
        }
        proof {
            assert(q.rows@[i as int]@.map_values(|s: String| s@) =~= q.rows.deep_view()[i as int]);
            assert(csv_written(w) =~= before.push(q.rows.deep_view()[i as int]));
            assert(q.rows.deep_view().take(i + 1) =~= q.rows.deep_view().take(i as int).push(
                q.rows.deep_view()[i as int],
            ));
            assert(csv_written(w) =~= seq![q.columns.deep_view()] + q.rows.deep_view().take(i + 1));
        }
    }
    proof {
        assert(q.rows.deep_view().take(nrows as int) =~= q.rows.deep_view());
        assert(csv_written(w) =~= export_records_spec(*q));
    }
    csv_writer_finish(w)
}

} // verus!
