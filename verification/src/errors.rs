//! Error taxonomy: ingest-time failures are fatal to a load; query-time
//! failures are reported and the command loop continues.

use vstd::prelude::*;
use crate::numbers::{dec_spec, u64_to_dec_chars};
use crate::text::{append_chars, lossy_utf8, bytes_to_text_lossy};
use vstd::string::StringExecFns;

verus! {

/// A failure while loading a source into a table.
#[derive(Debug)]
pub enum IngestError {
    /// The source's text could not be parsed.
    Parse { detail: String },
    /// A record was wider than the table: carries the 1-based row index and
    /// the offending raw fields.
    Schema { row_index: u64, fields: Vec<Vec<u8>> },
    /// The relational engine refused a statement during the load.
    Engine { detail: String },
    /// The row counter cannot hold the number of records.
    Overflow,
}

/// A failure while running one query.
#[derive(Debug)]
pub enum QueryError {
    /// The statement was refused by the relational engine.
    Engine { detail: String },
    /// A result cell held bytes that are not valid text.
    BadCell,
}

/// An invalid pattern argument to one of the user-defined functions.
#[derive(Debug)]
pub enum UdfError {
    InvalidPattern,
}

/// A malformed meta-command.
#[derive(Debug)]
pub enum CommandError {
    /// The line did not match `.export(file-name) SQL`.
    ExportSyntax,
    /// The argument to `.style` was neither `table` nor `vertical`.
    StyleSyntax,
}

/// The offending fields rendered as text, comma-separated.
pub open spec fn fields_text_spec(fields: Seq<Seq<u8>>) -> Seq<char>
    decreases fields.len(),
{
    if fields.len() == 0 {
        Seq::empty()
    } else if fields.len() == 1 {
        lossy_utf8(fields[0])
    } else {
        fields_text_spec(fields.drop_last()) + ", "@ + lossy_utf8(fields.last())
    }
}

impl IngestError {
    /// The printable description of the failure.
    pub open spec fn message_spec(&self) -> Seq<char> {
        match self {
            IngestError::Parse { detail } => "cannot parse source: "@ + detail@,
            IngestError::Schema { row_index, fields } => "too many fields on row "@ + dec_spec(
                *row_index as nat,
            ) + ", fields: "@ + fields_text_spec(fields@.map_values(|f: Vec<u8>| f@)),
            IngestError::Engine { detail } => "engine error: "@ + detail@,
            IngestError::Overflow => "too many rows in source"@,
        }
    }

    /// A printable description of the failure.
    pub fn message(&self) -> (r: String)
        ensures
            r@ == self.message_spec(),
    {
        match self {
            IngestError::Parse { detail } => {
                let mut m = String::from_str("cannot parse source: ");
                m.append(detail.as_str());
                m
            },
            IngestError::Schema { row_index, fields } => {
                let ghost views = fields@.map_values(|f: Vec<u8>| f@);
                let mut m = String::from_str("too many fields on row ");
                let digits = u64_to_dec_chars(*row_index);
                append_chars(&mut m, &digits);
                m.append(", fields: ");
                let ghost prefix = m@;
                let n = fields.len();
                for i in 0..n
                    invariant
                        n == fields@.len(),
                        views == fields@.map_values(|f: Vec<u8>| f@),
                        m@ =~= prefix + fields_text_spec(views.take(i as int)),
                {
                    if i > 0 {
                        m.append(", ");
                    }
                    let text = bytes_to_text_lossy(&fields[i]);
                    m.append(text.as_str());
                    proof {
                        assert(views.take(i + 1).drop_last() =~= views.take(i as int));
                        assert(views.take(i + 1).last() == views[i as int]);
                        assert(views[i as int] == fields@[i as int]@);
                        assert(m@ =~= prefix + fields_text_spec(views.take(i + 1)));
                    }
                }
                proof {
                    assert(views.take(n as int) =~= views);
                }
                m
            },
            IngestError::Engine { detail } => {
                let mut m = String::from_str("engine error: ");
                m.append(detail.as_str());
                m
            },
            IngestError::Overflow => String::from_str("too many rows in source"),
        }
    }
}

impl QueryError {
    /// The printable description of the failure.
    pub open spec fn message_spec(&self) -> Seq<char> {
        match self {
            QueryError::Engine { detail } => "query error: "@ + detail@,
            QueryError::BadCell => "query error: result cell is not valid text"@,
        }
    }

    /// A printable description of the failure.
    pub fn message(&self) -> (r: String)
        ensures
            r@ == self.message_spec(),
    {
        match self {
            QueryError::Engine { detail } => {
                let mut m = String::from_str("query error: ");
                m.append(detail.as_str());
                m
            },
            QueryError::BadCell => String::from_str("query error: result cell is not valid text"),
        }
    }
}

impl CommandError {
    /// The printable description of the failure.
    pub open spec fn message_spec(&self) -> Seq<char> {
        match self {
            CommandError::ExportSyntax => "must match `.export(file-name) SQL`"@,
            CommandError::StyleSyntax => "must match `.style(table|vertical)`"@,
        }
    }

    /// A printable description of the failure.
    pub fn message(&self) -> (r: String)
        ensures
            r@ == self.message_spec(),
    {
        match self {
            CommandError::ExportSyntax => String::from_str("must match `.export(file-name) SQL`"),
            CommandError::StyleSyntax => String::from_str("must match `.style(table|vertical)`"),
        }
    }
}

} // verus!
