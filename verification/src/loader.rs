//! Source readers: a `Loader` yields raw header names and a forward-only
//! sequence of records from one input; `CsvLoader` reads delimited text held
//! in memory through the csv crate.

use vstd::prelude::*;
use crate::errors::IngestError;

verus! {

#[verifier::external_type_specification]
#[verifier::external_body]
#[verifier::reject_recursive_types(T)]
pub struct ExCursor<T>(std::io::Cursor<T>);

#[verifier::external_type_specification]
#[verifier::external_body]
#[verifier::reject_recursive_types(R)]
pub struct ExCsvReader<R>(csv::Reader<R>);

/// The header row a reader will report, or `None` when the header is not
/// valid text.
pub uninterp spec fn csv_header_model(r: csv::Reader<std::io::Cursor<Vec<u8>>>) -> Option<
    Seq<Seq<char>>,
>;

/// The data records a reader has not yet yielded (the header row is not among
/// them).
pub uninterp spec fn csv_pending(r: csv::Reader<std::io::Cursor<Vec<u8>>>) -> Seq<Seq<Seq<u8>>>;

/// The byte offset the reader has consumed so far.
pub uninterp spec fn csv_byte_pos(r: csv::Reader<std::io::Cursor<Vec<u8>>>) -> u64;

/// The length in bytes of the reader's whole input.
pub uninterp spec fn csv_input_len(r: csv::Reader<std::io::Cursor<Vec<u8>>>) -> u64;

/// Relies on csv::ReaderBuilder: a reader over the given bytes with the given
/// single-byte field delimiter, lenient about differing row widths. Every
/// record consumes at least one input byte, so there are no more records than
/// bytes.
#[verifier::external_body]
fn csv_reader_from_bytes(data: Vec<u8>, delimiter: u8) -> (r: csv::Reader<
    std::io::Cursor<Vec<u8>>,
>)
    ensures
        csv_pending(r).len() <= data@.len(),
        csv_input_len(r) == data@.len(),
        csv_byte_pos(r) == 0,
{
    csv::ReaderBuilder::new().flexible(true).delimiter(delimiter).from_reader(
        std::io::Cursor::new(data),
    )
}

/// Relies on csv::Reader::headers: the first row as text, cached; reading it
/// consumes no data record.
#[verifier::external_body]
fn csv_headers(r: &mut csv::Reader<std::io::Cursor<Vec<u8>>>) -> (res: Result<
    Vec<String>,
    IngestError,
>)
    ensures
        csv_pending(*final(r)) == csv_pending(*old(r)),
        csv_header_model(*final(r)) == csv_header_model(*old(r)),
        csv_input_len(*final(r)) == csv_input_len(*old(r)),
        csv_byte_pos(*old(r)) <= csv_byte_pos(*final(r)),
        csv_byte_pos(*final(r)) <= csv_input_len(*final(r)),
        match res {
            Ok(h) => csv_header_model(*old(r)) == Some(h@.map_values(|s: String| s@)),
            Err(e) => csv_header_model(*old(r)) is None && e is Parse,
        },
{
    match r.headers() {
        Ok(h) => Ok(h.iter().map(|f| f.to_string()).collect()),
        Err(e) => Err(IngestError::Parse { detail: e.to_string() }),
    }
}

/// Relies on csv::Reader::read_byte_record: yields the fields of the next
/// data record, or nothing at end of input; the header row is skipped.
#[verifier::external_body]
fn csv_next(r: &mut csv::Reader<std::io::Cursor<Vec<u8>>>) -> (res: Result<
    Option<Vec<Vec<u8>>>,
    IngestError,
>)
    ensures
        csv_header_model(*final(r)) == csv_header_model(*old(r)),
        csv_input_len(*final(r)) == csv_input_len(*old(r)),
        csv_byte_pos(*old(r)) <= csv_byte_pos(*final(r)),
        csv_byte_pos(*final(r)) <= csv_input_len(*final(r)),
        match res {
            Ok(Some(fields)) => csv_pending(*old(r)).len() > 0 && fields@.map_values(
                |f: Vec<u8>| f@,
            ) == csv_pending(*old(r))[0] && csv_pending(*final(r)) == csv_pending(*old(r)).drop_first(),
            Ok(None) => csv_pending(*old(r)).len() == 0 && csv_pending(*final(r)) == csv_pending(
                *old(r),
            ),
            Err(e) => e is Parse,
        },
{
    let mut rec = csv::ByteRecord::new();
    match r.read_byte_record(&mut rec) {
        Ok(true) => Ok(Some(rec.iter().map(|f| f.to_vec()).collect())),
        Ok(false) => Ok(None),
        Err(e) => Err(IngestError::Parse { detail: e.to_string() }),
    }
}

/// Relies on csv::Reader::position: the byte offset reached in the input,
/// never past its end.
#[verifier::external_body]
fn csv_position(r: &csv::Reader<std::io::Cursor<Vec<u8>>>) -> (n: u64)
    ensures
        n == csv_byte_pos(*r),
        n <= csv_input_len(*r),
{
    r.position().byte()
}

/// Relies on csv::Reader::get_ref through the cursor: the input's length.
#[verifier::external_body]
fn csv_input_size(r: &csv::Reader<std::io::Cursor<Vec<u8>>>) -> (n: u64)
    ensures
        n == csv_input_len(*r),
{
    r.get_ref().get_ref().len() as u64
}

fn clone_bytes(v: &Vec<u8>) -> (r: Vec<u8>)
    ensures
        r@ == v@,
{
    let mut r: Vec<u8> = Vec::new();
    let n = v.len();
    for i in 0..n
        invariant
            n == v@.len(),
            r@ =~= v@.take(i as int),
    {
        r.push(v[i]);
        assert(r@ =~= v@.take(i + 1));
    }
    assert(r@ =~= v@);
    r
}

/// One row's ordered raw field values.
pub trait Record: Sized {
    spec fn fields_view(&self) -> Seq<Seq<u8>>;

    /// The record's raw field values, in order.
    fn iter(&self) -> (r: Vec<Vec<u8>>)
        ensures
            r@.map_values(|f: Vec<u8>| f@) == self.fields_view(),
    ;
}

/// A record read from delimited text.
pub struct CsvRecord {
    pub fields: Vec<Vec<u8>>,
}

impl Record for CsvRecord {
    open spec fn fields_view(&self) -> Seq<Seq<u8>> {
        self.fields@.map_values(|f: Vec<u8>| f@)
    }

    fn iter(&self) -> (r: Vec<Vec<u8>>) {
        let mut r: Vec<Vec<u8>> = Vec::new();
        let n = self.fields.len();
        for i in 0..n
            invariant
                n == self.fields@.len(),
                r@.map_values(|f: Vec<u8>| f@) =~= self.fields@.take(i as int).map_values(
                    |f: Vec<u8>| f@,
                ),
        {
            let ghost prev = r@;
            let b = clone_bytes(&self.fields[i]);
            r.push(b);
            proof {
                let f = |f: Vec<u8>| f@;
                assert(r@ == prev.push(b));
                assert(r@.map_values(f) =~= prev.map_values(f).push(f(b)));
                assert(self.fields@.take(i + 1) =~= self.fields@.take(i as int).push(
                    self.fields@[i as int],
                ));
                assert(self.fields@.take(i + 1).map_values(f) =~= self.fields@.take(
                    i as int,
                ).map_values(f).push(f(self.fields@[i as int])));
                assert(f(b) == f(self.fields@[i as int]));
                assert(r@.map_values(f) =~= self.fields@.take(i + 1).map_values(f));
            }
        }
        assert(self.fields@.take(n as int) =~= self.fields@);
        r
    }
}

/// A source of records: header names, progress metrics and a forward-only
/// record sequence.
pub trait Loader: Sized {
    type RecordType: Record;

    /// The header row the source will report, or `None` when it is not
    /// readable text.
    spec fn raw_header(&self) -> Option<Seq<Seq<char>>>;

    /// The data records not yet yielded.
    spec fn pending(&self) -> Seq<Seq<Seq<u8>>>;

    /// The source's total size, in source-defined units.
    spec fn total_units(&self) -> u64;

    /// How far the source has been consumed, in the same units.
    spec fn progress(&self) -> u64;

    /// The name the source was opened under.
    spec fn source_name(&self) -> Seq<char>;

    /// Name of the resource the loader reads from (e.g., a file path).
    fn name(&self) -> (r: &str)
        ensures
            r@ == self.source_name(),
    ;

    /// Total size of the source, in source-defined units, for progress
    /// reporting.
    fn progress_size(&self) -> (r: u64)
        ensures
            r == self.total_units(),
    ;

    /// Position reached so far: observational, never past `progress_size`.
    fn progress_position(&self) -> (r: u64)
        ensures
            r == self.progress(),
            r <= self.total_units(),
    ;

    /// The names of the fields as they stand in the underlying data.
    fn raw_fields(&mut self) -> (r: Result<Vec<String>, IngestError>)
        ensures
            final(self).raw_header() == old(self).raw_header(),
            final(self).pending() == old(self).pending(),
            final(self).total_units() == old(self).total_units(),
            old(self).progress() <= final(self).progress(),
            match r {
                Ok(h) => old(self).raw_header() == Some(h@.map_values(|s: String| s@)),
                Err(e) => old(self).raw_header() is None && e is Parse,
            },
    ;

    /// The next record, or `None` once the source is exhausted. Progress only
    /// ever advances.
    fn next_record(&mut self) -> (r: Option<Result<Self::RecordType, IngestError>>)
        ensures
            final(self).raw_header() == old(self).raw_header(),
            final(self).total_units() == old(self).total_units(),
            old(self).progress() <= final(self).progress(),
            match r {
                None => old(self).pending().len() == 0 && final(self).pending() == old(
                    self,
                ).pending(),
                Some(Ok(rec)) => old(self).pending().len() > 0 && rec.fields_view() == old(
                    self,
                ).pending()[0] && final(self).pending() == old(self).pending().drop_first(),
                Some(Err(e)) => e is Parse,
            },
    ;
}

/// Reads records from delimited text held in memory.
pub struct CsvLoader {
    path: String,
    rdr: csv::Reader<std::io::Cursor<Vec<u8>>>,
}

impl CsvLoader {
    /// A loader over the given bytes; `path` only names the source.
    pub fn new(path: String, data: Vec<u8>, delimiter: u8) -> (r: CsvLoader)
        ensures
            r.pending().len() <= data@.len(),
            r.total_units() == data@.len(),
            r.progress() == 0,
            r.source_name() == path@,
    {
        let rdr = csv_reader_from_bytes(data, delimiter);
        CsvLoader { path, rdr }
    }
}

impl Loader for CsvLoader {
    type RecordType = CsvRecord;

    closed spec fn raw_header(&self) -> Option<Seq<Seq<char>>> {
        csv_header_model(self.rdr)
    }

    closed spec fn pending(&self) -> Seq<Seq<Seq<u8>>> {
        csv_pending(self.rdr)
    }

    closed spec fn total_units(&self) -> u64 {
        csv_input_len(self.rdr)
    }

    closed spec fn progress(&self) -> u64 {
        csv_byte_pos(self.rdr)
    }

    closed spec fn source_name(&self) -> Seq<char> {
        self.path@
    }

    fn name(&self) -> (r: &str) {
        self.path.as_str()
    }

    fn progress_size(&self) -> (r: u64) {
        csv_input_size(&self.rdr)
    }

    fn progress_position(&self) -> (r: u64) {
        csv_position(&self.rdr)
    }

    fn raw_fields(&mut self) -> (r: Result<Vec<String>, IngestError>) {
        csv_headers(&mut self.rdr)
    }

    fn next_record(&mut self) -> (r: Option<Result<CsvRecord, IngestError>>) {
        match csv_next(&mut self.rdr) {
            Ok(Some(fields)) => Some(Ok(CsvRecord { fields })),
            Ok(None) => None,
            Err(e) => Some(Err(e)),
        }
    }
}

} // verus!
