//! The output renderer's verified half: the output style switch and the
//! vertical per-record listing. (The boxed-table style is drawn by a terminal
//! rendering crate outside the library.)

use vstd::prelude::*;
use vstd::string::{StringExecFns, StrSliceExecFns};
use crate::numbers::{dec_spec, u64_to_dec_chars};
use crate::text::{push_char, append_chars};
use crate::query::QueryResult;

verus! {

/// How query results are printed: a boxed table, or one block per record.
#[derive(Clone, Copy, Debug, PartialEq, Eq, Structural)]
pub enum OutputStyle {
    Table,
    Vertical,
}

/// The separator line labeling one record, counted from 1.
pub open spec fn record_header_spec(k: nat) -> Seq<char> {
    "------ [ RECORD "@ + dec_spec(k) + " ] ------"@
}

pub open spec fn spaces(n: nat) -> Seq<char> {
    Seq::new(n, |i: int| ' ')
}

/// A column name padded with spaces on the right to the widest column-name
/// width, so the separators line up in one column.
pub open spec fn pad_spec(s: Seq<char>, w: nat) -> Seq<char> {
    if s.len() >= w {
        s
    } else {
        s + spaces((w - s.len()) as nat)
    }
}

/// One field line: the padded column name, a separator, and the value.
pub open spec fn field_line_spec(name: Seq<char>, value: Seq<char>, w: nat) -> Seq<char> {
    pad_spec(name, w) + " | "@ + value
}

/// The width of the widest column name.
pub open spec fn max_name_len(cols: Seq<Seq<char>>) -> nat
    decreases cols.len(),
{
    if cols.len() == 0 {
        0
    } else {
        let rest = max_name_len(cols.drop_last());
        if cols.last().len() > rest {
            cols.last().len()
        } else {
            rest
        }
    }
}

/// The lines of one record block: a labeled separator, then one line per
/// column, every name padded to the same width.
pub open spec fn record_block_spec(
    cols: Seq<Seq<char>>,
    row: Seq<Seq<char>>,
    k: nat,
    w: nat,
) -> Seq<Seq<char>> {
    seq![record_header_spec(k)] + Seq::new(cols.len(), |j: int| field_line_spec(cols[j], row[j], w))
}

/// All lines of the vertical rendering: one block per record, labeled from 1.
pub open spec fn vertical_spec(cols: Seq<Seq<char>>, rows: Seq<Seq<Seq<char>>>) -> Seq<Seq<char>>
    decreases rows.len(),
{
    if rows.len() == 0 {
        Seq::empty()
    } else {
        vertical_spec(cols, rows.drop_last()) + record_block_spec(
            cols,
            rows.last(),
            rows.len(),
            max_name_len(cols),
        )
    }
}

fn max_name_width(cols: &Vec<String>) -> (w: usize)
    ensures
        w == max_name_len(cols.deep_view()),
{
    let ghost dv = cols.deep_view();
    let mut w: usize = 0;
    let n = cols.len();
    for i in 0..n
        invariant
            n == cols@.len(),
            dv == cols.deep_view(),
            w == max_name_len(dv.take(i as int)),
    {
        let l = cols[i].as_str().unicode_len();
        if l > w {
            w = l;
        }
        proof {
            assert(dv.take(i + 1).drop_last() =~= dv.take(i as int));
            assert(dv.take(i + 1).last() == dv[i as int]);
            assert(dv[i as int] == cols@[i as int]@);
        }
    }
    assert(dv.take(n as int) =~= dv);
    w
}

fn pad_name(name: &str, w: usize) -> (r: String)
    ensures
        r@ == pad_spec(name@, w as nat),
{
    let mut s = name.to_owned();
    let mut l = name.unicode_len();
    if l >= w {
        return s;
    }
    while l < w
        invariant
            l <= w,
            name@.len() <= l,
            s@ =~= name@ + spaces((l - name@.len()) as nat),
        decreases w - l,
    {
        push_char(&mut s, ' ');
        proof {
            assert(spaces((l + 1 - name@.len()) as nat) =~= spaces((l - name@.len()) as nat).push(
                ' ',
            ));
        }
        l += 1;
    }
    proof {
        assert(s@ =~= pad_spec(name@, w as nat));
    }
    s
}

fn record_header_line(k: u64) -> (r: String)
    ensures
        r@ == record_header_spec(k as nat),
{
    let mut s = String::from_str("------ [ RECORD ");
    let digits = u64_to_dec_chars(k);
    append_chars(&mut s, &digits);
    s.append(" ] ------");
    assert(s@ =~= record_header_spec(k as nat));
    s
}

/// Renders a result set as one block per record: a separator labeled with the
/// 1-based record number, then one line per column with every name padded to
/// the widest column-name width.
pub fn render_vertical(result: &QueryResult) -> (lines: Vec<String>)
    requires
        result.well_formed(),
        result.rows@.len() <= u64::MAX,
    ensures
        lines.deep_view() == vertical_spec(result.columns.deep_view(), result.rows.deep_view()),
{
    let ghost cols_dv = result.columns.deep_view();
    let ghost rows_dv = result.rows.deep_view();
    let w = max_name_width(&result.columns);
    let ncols = result.columns.len();
    let nrows = result.rows.len();
    let mut lines: Vec<String> = Vec::new();
    for k in 0..nrows
        invariant
            nrows == result.rows@.len() <= u64::MAX,
            ncols == result.columns@.len(),
            result.well_formed(),
            cols_dv == result.columns.deep_view(),
            rows_dv == result.rows.deep_view(),
            w == max_name_len(cols_dv),
            lines.deep_view() =~= vertical_spec(cols_dv, rows_dv.take(k as int)),
    {
        let ghost lines_before = lines.deep_view();
        let header_line = record_header_line((k as u64) + 1);
        lines.push(header_line);
        proof {
            assert(lines.deep_view() =~= lines_before + seq![record_header_spec((k + 1) as nat)]
                + Seq::new(
                0,
                |j: int| field_line_spec(cols_dv[j], rows_dv[k as int][j], w as nat),
            ));
        }
        let row = &result.rows[k];
        for j in 0..ncols
            invariant
                nrows == result.rows@.len() <= u64::MAX,
                ncols == result.columns@.len(),
                result.well_formed(),
                cols_dv == result.columns.deep_view(),
                rows_dv == result.rows.deep_view(),
                w == max_name_len(cols_dv),
                k < nrows,
                row == &result.rows@[k as int],
                lines_before == vertical_spec(cols_dv, rows_dv.take(k as int)),
                lines.deep_view() =~= lines_before + seq![record_header_spec((k + 1) as nat)]
                    + Seq::new(
                    j as nat,
                    |j: int| field_line_spec(cols_dv[j], rows_dv[k as int][j], w as nat),
                ),
        {
            let padded = pad_name(result.columns[j].as_str(), w);
            let mut line = padded;
            line.append(" | ");
            line.append(row[j].as_str());
            proof {
                assert(line@ == field_line_spec(cols_dv[j as int], rows_dv[k as int][j as int], w as nat))
                by {
                    assert(cols_dv[j as int] == result.columns@[j as int]@);
                    assert(rows_dv[k as int][j as int] == result.rows@[k as int]@[j as int]@);
                }
            }
            let ghost prev_dv = lines.deep_view();
            let ghost line_view = line@;
            lines.push(line);
            proof {
                assert(lines.deep_view() =~= prev_dv.push(line_view));
                assert(Seq::new(
                    (j + 1) as nat,
                    |j: int| field_line_spec(cols_dv[j], rows_dv[k as int][j], w as nat),
                ) =~= Seq::new(
                    j as nat,
                    |j: int| field_line_spec(cols_dv[j], rows_dv[k as int][j], w as nat),
                ).push(field_line_spec(cols_dv[j as int], rows_dv[k as int][j as int], w as nat)));
            }
        }
        proof {
            assert(rows_dv.take(k + 1).drop_last() =~= rows_dv.take(k as int));
            assert(rows_dv.take(k + 1).last() == rows_dv[k as int]);
            assert(rows_dv.take(k + 1).len() == k + 1);
            assert(lines.deep_view() =~= vertical_spec(cols_dv, rows_dv.take(k + 1)));
        }
    }
    proof {
        assert(rows_dv.take(nrows as int) =~= rows_dv);
    }
    lines
}

} // verus!
