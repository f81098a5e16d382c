//! The command processor: routes each input line to export, schema
//! introspection, style change, or plain-query handling, and holds the
//! process-wide output style.

use vstd::prelude::*;
use crate::errors::{CommandError, QueryError};
use crate::export::{export_result, export_records_spec, csv_encoding_of};
use crate::names::{is_ascii_lower_letter, is_ascii_upper};
use crate::query::{run_query, QueryResult};
use crate::render::{render_vertical, OutputStyle};
use crate::sqlgen::schema_query;
use crate::text::{str_to_chars, chars_to_string, copy_range};

verus! {

/// One prefix of another sequence.
pub open spec fn starts_with(s: Seq<char>, p: Seq<char>) -> bool {
    p.len() <= s.len() && s.take(p.len() as int) == p
}

pub open spec fn is_ascii_digit(c: char) -> bool {
    48 <= c as u32 && c as u32 <= 57
}

/// Whether the character is in the Unicode word class, the class the regex
/// `\w` matches.
pub uninterp spec fn is_word_char(c: char) -> bool;

/// Relies on regex_syntax::is_word_character: the UTS#18 word class behind
/// the regex crate's `\w`. regex-syntax is the regex crate's own syntax
/// library; taking the class from it keeps the accepted path alphabet exactly
/// what `\w` matches. ASCII letters, digits and the underscore are word
/// characters; the space and the closing parenthesis that end an export path
/// are not.
#[verifier::external_body]
fn word_char(c: char) -> (r: bool)
    ensures
        r == is_word_char(c),
        is_ascii_lower_letter(c) || is_ascii_upper(c) || is_ascii_digit(c) || c == '_' ==> r,
        c == ' ' || c == ')' ==> !r,
{
    regex_syntax::is_word_character(c)
}

/// The characters accepted in an export path: word characters, underscore,
/// dash, dot and slash.
pub open spec fn is_path_char(c: char) -> bool {
    is_word_char(c) || c == '_' || c == '-' || c == '.' || c == '/'
}

fn is_path_char_exec(c: char) -> (r: bool)
    ensures
        r == is_path_char(c),
{
    word_char(c) || c == '_' || c == '-' || c == '.' || c == '/'
}

/// The length of the run of path characters starting at `i`.
pub open spec fn path_run_len(s: Seq<char>, i: int) -> int
    decreases s.len() - i,
{
    if 0 <= i < s.len() && is_path_char(s[i]) {
        1 + path_run_len(s, i + 1)
    } else {
        0
    }
}

/// `.export(<path>) <sql>`: a nonempty run of path characters closed by `) `;
/// the rest of the line is the query.
pub open spec fn export_parse_spec(s: Seq<char>) -> Option<(Seq<char>, Seq<char>)> {
    let n = path_run_len(s, 8);
    if starts_with(s, ".export("@) && n >= 1 && 8 + n + 2 <= s.len() && s[8 + n] == ')' && s[8 + n
        + 1] == ' ' {
        Some((s.subrange(8, 8 + n), s.skip(8 + n + 2)))
    } else {
        None
    }
}

/// `.style(table)` or `.style(vertical)`, anything after the closing
/// parenthesis ignored.
pub open spec fn style_parse_spec(s: Seq<char>) -> Option<OutputStyle> {
    if starts_with(s, ".style(table)"@) {
        Some(OutputStyle::Table)
    } else if starts_with(s, ".style(vertical)"@) {
        Some(OutputStyle::Vertical)
    } else {
        None
    }
}

/// How one input line is dispatched: by its leading meta-command word, or as
/// plain SQL.
pub enum LineDispatch {
    Export { path: Seq<char>, query: Seq<char> },
    ExportBad,
    Schema,
    Style(OutputStyle),
    StyleBad,
    Query,
}

/// The dispatch of one input line.
pub open spec fn dispatch_spec(s: Seq<char>) -> LineDispatch {
    if starts_with(s, ".export"@) {
        match export_parse_spec(s) {
            Some((path, query)) => LineDispatch::Export { path, query },
            None => LineDispatch::ExportBad,
        }
    } else if starts_with(s, ".schema"@) {
        LineDispatch::Schema
    } else if starts_with(s, ".style"@) {
        match style_parse_spec(s) {
            Some(st) => LineDispatch::Style(st),
            None => LineDispatch::StyleBad,
        }
    } else {
        LineDispatch::Query
    }
}

/// The field delimiter the flags select: comma by default, or exactly one
/// of pipe, tab and semicolon; passing more than one flag selects nothing.
pub open spec fn delimiter_spec(comma: bool, pipe: bool, tab: bool, semicolon: bool) -> Option<
    u8,
> {
    if !pipe && !tab && !semicolon {
        Some(44u8)
    } else if !comma && pipe && !tab && !semicolon {
        Some(124u8)
    } else if !comma && !pipe && tab && !semicolon {
        Some(9u8)
    } else if !comma && !pipe && !tab && semicolon {
        Some(59u8)
    } else {
        None
    }
}

/// Selects the field delimiter from the mutually-exclusive flags.
pub fn delimiter_for_flags(comma: bool, pipe: bool, tab: bool, semicolon: bool) -> (r: Option<u8>)
    ensures
        r == delimiter_spec(comma, pipe, tab, semicolon),
{
    if !pipe && !tab && !semicolon {
        Some(44)
    } else if !comma && pipe && !tab && !semicolon {
        Some(124)
    } else if !comma && !pipe && tab && !semicolon {
        Some(9)
    } else if !comma && !pipe && !tab && semicolon {
        Some(59)
    } else {
        None
    }
}

/// One recognized REPL line.
pub enum Command {
    /// `.export(<path>) <sql>`: run the query and write its result to a file.
    Export { path: String, query: String },
    /// `.schema`: the catalog of loaded tables.
    Schema,
    /// `.style(table|vertical)`: switch the output style.
    Style(OutputStyle),
    /// Anything else: the line is a plain SQL statement.
    Query,
}

fn has_prefix(v: &Vec<char>, p: &str) -> (r: bool)
    ensures
        r == starts_with(v@, p@),
{
    let pc = str_to_chars(p);
    let n = pc.len();
    if n > v.len() {
        return false;
    }
    for i in 0..n
        invariant
            n == pc@.len() <= v@.len(),
            pc@ == p@,
            forall|k: int| 0 <= k < i ==> v@[k] == pc@[k],
    {
        if v[i] != pc[i] {
            assert(v@.take(n as int)[i as int] != p@[i as int]);
            return false;
        }
    }
    assert(v@.take(n as int) =~= p@);
    true
}

/// Recognizes one input line as a meta-command or a plain query.
pub fn parse_command(line: &str) -> (r: Result<Command, CommandError>)
    ensures
        match r {
            Ok(Command::Export { path, query }) => dispatch_spec(line@) == (LineDispatch::Export {
                path: path@,
                query: query@,
            }),
            Ok(Command::Schema) => dispatch_spec(line@) is Schema,
            Ok(Command::Style(st)) => dispatch_spec(line@) == LineDispatch::Style(st),
            Ok(Command::Query) => dispatch_spec(line@) is Query,
            Err(CommandError::ExportSyntax) => dispatch_spec(line@) is ExportBad,
            Err(CommandError::StyleSyntax) => dispatch_spec(line@) is StyleBad,
        },
{
    let v = str_to_chars(line);
    if has_prefix(&v, ".export") {
        return parse_export(&v);
    }
    if has_prefix(&v, ".schema") {
        return Ok(Command::Schema);
    }
    if has_prefix(&v, ".style") {
        if has_prefix(&v, ".style(table)") {
            return Ok(Command::Style(OutputStyle::Table));
        }
        if has_prefix(&v, ".style(vertical)") {
            return Ok(Command::Style(OutputStyle::Vertical));
        }
        return Err(CommandError::StyleSyntax);
    }
    Ok(Command::Query)
}

fn parse_export(v: &Vec<char>) -> (r: Result<Command, CommandError>)
    requires
        starts_with(v@, ".export"@),
    ensures
        match r {
            Ok(Command::Export { path, query }) => export_parse_spec(v@) == Some(
                (path@, query@),
            ),
            Err(CommandError::ExportSyntax) => export_parse_spec(v@) is None,
            _ => false,
        },
{
    if !has_prefix(v, ".export(") {
        return Err(CommandError::ExportSyntax);
    }
    proof {
        reveal_strlit(".export(");
        assert(".export("@.len() == 8);
    }
    let len = v.len();
    let mut i: usize = 8;
    loop
        invariant
            8 <= i <= len,
            len == v@.len(),
            forall|k: int| 8 <= k < i ==> is_path_char(#[trigger] v@[k]),
            path_run_len(v@, 8) == i - 8 + path_run_len(v@, i as int),
        ensures
            8 <= i <= len,
            path_run_len(v@, 8) == i - 8,
        decreases len - i,
    {
        if i < len && is_path_char_exec(v[i]) {
            i += 1;
        } else {
            break ;
        }
    }
    let n = i - 8;
    if n == 0 {
        return Err(CommandError::ExportSyntax);
    }
    if i < len && v[i] == ')' && i + 1 < len && v[i + 1] == ' ' {
        let path = chars_to_string(&copy_range(v, 8, i));
        let query = chars_to_string(&copy_range(v, i + 2, len));
        proof {
            assert(v@.skip(i + 2) =~= v@.subrange(i + 2, len as int));
        }
        return Ok(Command::Export { path, query });
    }
    Err(CommandError::ExportSyntax)
}

/// What the command loop hands back to its caller for one line.
pub enum ProcessOutcome {
    /// Render these columns and rows as a boxed table.
    Table(QueryResult),
    /// Print these lines as they stand (vertical blocks, or one message).
    Lines(Vec<String>),
    /// Write the encoded bytes to the file at `path`.
    Export { path: String, data: Vec<u8> },
    /// The style changed; there is nothing to print.
    StyleSet,
}

fn message_lines(m: String) -> (r: Vec<String>)
    ensures
        r@.len() == 1,
        r@[0]@ == m@,
{
    let mut r: Vec<String> = Vec::new();
    r.push(m);
    r
}

/// What the query paths hand back for one statement under one style: a table
/// outcome carries a result the query runner could have returned for exactly
/// this statement; a lines outcome is either the vertical rendering of such a
/// result, or the single message of an error the runner could have returned
/// for it.
pub open spec fn query_outcome_spec(
    conn: &rusqlite::Connection,
    sql: &str,
    style: OutputStyle,
    r: ProcessOutcome,
) -> bool {
    match r {
        ProcessOutcome::Table(q) => style is Table && q.well_formed() && call_ensures(
            run_query,
            (conn, sql),
            Ok::<QueryResult, QueryError>(q),
        ),
        ProcessOutcome::Lines(ls) => (style is Vertical && exists|q: QueryResult|
            q.well_formed() && #[trigger] call_ensures(
                run_query,
                (conn, sql),
                Ok::<QueryResult, QueryError>(q),
            ) && ls.deep_view() == crate::render::vertical_spec(
                q.columns.deep_view(),
                q.rows.deep_view(),
            )) || (exists|e: QueryError|
            #[trigger] call_ensures(run_query, (conn, sql), Err::<QueryResult, QueryError>(e))
                && ls@.len() == 1 && ls@[0]@ == e.message_spec()),
        _ => false,
    }
}

/// The same tie, phrased over the statement's text.
pub open spec fn query_outcome_on_text(
    conn: &rusqlite::Connection,
    sql: Seq<char>,
    style: OutputStyle,
    r: ProcessOutcome,
) -> bool {
    exists|s: &str| #[trigger] query_outcome_spec(conn, s, style, r) && s@ == sql
}

fn run_and_render(conn: &rusqlite::Connection, sql: &str, style: &OutputStyle) -> (r:
    ProcessOutcome)
    ensures
        *style is Table ==> r is Table || r is Lines,
        *style is Vertical ==> r is Lines,
        query_outcome_spec(conn, sql, *style, r),
        r matches ProcessOutcome::Table(q) ==> q.well_formed(),
        !(r is Export) && !(r is StyleSet),
{
    let res = run_query(conn, sql);
    let ghost gres = res;
    proof {
        assert(call_ensures(run_query, (conn, sql), gres));
    }
    match res {
        Err(e) => {
            let m = e.message();
            let ls = message_lines(m);
            proof {
                assert(gres == Err::<QueryResult, QueryError>(e));
            }
            ProcessOutcome::Lines(ls)
        },
        Ok(qr) => {
            proof {
                assert(gres == Ok::<QueryResult, QueryError>(qr));
            }
            match style {
                OutputStyle::Table => ProcessOutcome::Table(qr),
                OutputStyle::Vertical => {
                    let nrows: usize = qr.rows.len();
                    assert(nrows == qr.rows@.len() && qr.rows@.len() <= u64::MAX);
                    let ls = render_vertical(&qr);
                    proof {
                        assert(exists|q: QueryResult|
                            q.well_formed() && #[trigger] call_ensures(
                                run_query,
                                (conn, sql),
                                Ok::<QueryResult, QueryError>(q),
                            ) && ls.deep_view() == crate::render::vertical_spec(
                                q.columns.deep_view(),
                                q.rows.deep_view(),
                            )) by {
                            assert(qr.well_formed() && call_ensures(
                                run_query,
                                (conn, sql),
                                Ok::<QueryResult, QueryError>(qr),
                            ) && ls.deep_view() == crate::render::vertical_spec(
                                qr.columns.deep_view(),
                                qr.rows.deep_view(),
                            ));
                        }
                    }
                    ProcessOutcome::Lines(ls)
                },
            }
        },
    }
}

/// Routes one input line: `.export` runs its query and encodes the result for
/// the file, `.schema` runs the fixed catalog query, `.style` switches the
/// output style, and anything else runs as SQL under the current style. Every
/// failure becomes a printed message; none ends the loop. Table, lines and
/// exported bytes are each tied to an outcome the query runner could have
/// produced for the statement that was dispatched.
pub fn process_line(conn: &rusqlite::Connection, line: &str, style: &mut OutputStyle) -> (r:
    ProcessOutcome)
    ensures
        *final(style) == (match dispatch_spec(line@) {
            LineDispatch::Style(st) => st,
            _ => *old(style),
        }),
        dispatch_spec(line@) is Style ==> r is StyleSet,
        dispatch_spec(line@) is StyleBad ==> (r matches ProcessOutcome::Lines(ls) && ls@.len() == 1
            && ls@[0]@ == CommandError::StyleSyntax.message_spec()),
        dispatch_spec(line@) is ExportBad ==> (r matches ProcessOutcome::Lines(ls) && ls@.len()
            == 1 && ls@[0]@ == CommandError::ExportSyntax.message_spec()),
        (dispatch_spec(line@) is Schema || dispatch_spec(line@) is Query) ==> ((*old(
            style,
        ) is Table ==> r is Table || r is Lines) && (*old(style) is Vertical ==> r is Lines)),
        dispatch_spec(line@) is Query ==> query_outcome_spec(conn, line, *old(style), r),
        dispatch_spec(line@) is Schema ==> query_outcome_on_text(
            conn,
            "SELECT sql AS schema FROM sqlite_master WHERE name like 't%'"@,
            *old(style),
            r,
        ),
        dispatch_spec(line@) matches LineDispatch::Export { path: p, query: qv } ==> (match r {
            ProcessOutcome::Export { path, data } => path@ == p && (exists|s: &str, q: QueryResult|
                #[trigger] call_ensures(run_query, (conn, s), Ok::<QueryResult, QueryError>(q))
                    && s@ == qv && q.well_formed() && data@ == csv_encoding_of(
                    export_records_spec(q),
                )),
            ProcessOutcome::Lines(ls) => exists|s: &str, e: QueryError|
                #[trigger] call_ensures(run_query, (conn, s), Err::<QueryResult, QueryError>(e))
                    && s@ == qv && ls@.len() == 1 && ls@[0]@ == e.message_spec(),
            _ => false,
        }),
        r matches ProcessOutcome::Table(q) ==> q.well_formed(),
{
    match parse_command(line) {
        Err(e) => {
            let m = e.message();
            ProcessOutcome::Lines(message_lines(m))
        },
        Ok(Command::Style(st)) => {
            *style = st;
            ProcessOutcome::StyleSet
        },
        Ok(Command::Schema) => {
            let q = schema_query();
            let qstr: &str = q.as_str();
            let out = run_and_render(conn, qstr, style);
            proof {
                assert(query_outcome_on_text(
                    conn,
                    "SELECT sql AS schema FROM sqlite_master WHERE name like 't%'"@,
                    *style,
                    out,
                )) by {
                    assert(query_outcome_spec(conn, qstr, *style, out) && qstr@
                        == "SELECT sql AS schema FROM sqlite_master WHERE name like 't%'"@);
                }
            }
            out
        },
        Ok(Command::Query) => run_and_render(conn, line, style),
        Ok(Command::Export { path, query }) => {
            let qstr: &str = query.as_str();
            let res = run_query(conn, qstr);
            let ghost gres = res;
            proof {
                assert(call_ensures(run_query, (conn, qstr), gres));
            }
            match res {
                Err(e) => {
                    proof {
                        assert(gres == Err::<QueryResult, QueryError>(e));
                    }
                    let m = e.message();
                    ProcessOutcome::Lines(message_lines(m))
                },
                Ok(qr) => {
                    proof {
                        assert(gres == Ok::<QueryResult, QueryError>(qr));
                    }
                    match export_result(&qr) {
                        Ok(data) => {
                            proof {
                                assert(exists|s: &str, q2: QueryResult|
                                    #[trigger] call_ensures(
                                        run_query,
                                        (conn, s),
                                        Ok::<QueryResult, QueryError>(q2),
                                    ) && s@ == query@ && q2.well_formed() && data@
                                        == csv_encoding_of(export_records_spec(q2))) by {
                                    assert(call_ensures(
                                        run_query,
                                        (conn, qstr),
                                        Ok::<QueryResult, QueryError>(qr),
                                    ) && qstr@ == query@ && qr.well_formed() && data@
                                        == csv_encoding_of(export_records_spec(qr)));
                                }
                            }
                            ProcessOutcome::Export { path, data }
                        },
                        Err(e) => {
                            proof {
                                assert(false);
                            }
                            let m = e.message();
                            ProcessOutcome::Lines(message_lines(m))
                        },
                    }
                },
            }
        },
    }
}

} // verus!
