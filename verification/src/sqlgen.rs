//! Builders for the SQL statement texts the tool issues: table creation,
//! parameterized inserts, the schema catalog query, and table naming.

use vstd::prelude::*;
use vstd::string::StringExecFns;
use crate::numbers::{dec_spec, u64_to_dec_chars};
use crate::text::append_chars;

verus! {

/// `"name" varchar` for one column.
pub open spec fn column_def_spec(c: Seq<char>) -> Seq<char> {
    "\""@ + c + "\" varchar"@
}

/// The comma-separated column definitions.
pub open spec fn column_defs_spec(cols: Seq<Seq<char>>) -> Seq<char>
    decreases cols.len(),
{
    if cols.len() == 0 {
        Seq::empty()
    } else if cols.len() == 1 {
        column_def_spec(cols[0])
    } else {
        column_defs_spec(cols.drop_last()) + ", "@ + column_def_spec(cols.last())
    }
}

/// The text of the CREATE TABLE statement: every column is text-typed.
pub open spec fn create_table_sql_spec(table: Seq<char>, cols: Seq<Seq<char>>) -> Seq<char> {
    "CREATE TABLE "@ + table + " ("@ + column_defs_spec(cols) + ")"@
}

/// One `?` placeholder per column, comma-separated.
pub open spec fn placeholders_spec(n: nat) -> Seq<char>
    decreases n,
{
    if n == 0 {
        Seq::empty()
    } else if n == 1 {
        "?"@
    } else {
        placeholders_spec((n - 1) as nat) + ", ?"@
    }
}

/// The text of the parameterized INSERT statement.
pub open spec fn insert_sql_spec(table: Seq<char>, n: nat) -> Seq<char> {
    "INSERT INTO "@ + table + " VALUES ("@ + placeholders_spec(n) + ")"@
}

/// Builds the CREATE TABLE statement for the given table and column names.
pub fn create_table_sql(table: &str, cols: &Vec<String>) -> (r: String)
    ensures
        r@ == create_table_sql_spec(table@, cols@.map_values(|s: String| s@)),
{
    let ghost views = cols@.map_values(|s: String| s@);
    let mut defs = String::new();
    let n = cols.len();
    for i in 0..n
        invariant
            n == cols@.len(),
            views == cols@.map_values(|s: String| s@),
            defs@ =~= column_defs_spec(views.take(i as int)),
    {
        if i > 0 {
            defs.append(", ");
        }
        defs.append("\"");
        defs.append(cols[i].as_str());
        defs.append("\" varchar");
        proof {
            assert(views.take(i + 1).drop_last() =~= views.take(i as int));
            assert(views.take(i + 1).last() == views[i as int]);
            assert(defs@ =~= column_defs_spec(views.take(i + 1)));
        }
    }
    assert(views.take(n as int) =~= views);
    let mut sql = String::from_str("CREATE TABLE ");
    sql.append(table);
    sql.append(" (");
    sql.append(defs.as_str());
    sql.append(")");
    assert(sql@ =~= create_table_sql_spec(table@, views));
    sql
}

/// Builds the INSERT statement with one placeholder per column.
pub fn insert_sql(table: &str, ncols: usize) -> (r: String)
    ensures
        r@ == insert_sql_spec(table@, ncols as nat),
{
    let mut ph = String::new();
    for i in 0..ncols
        invariant
            ph@ =~= placeholders_spec(i as nat),
    {
        if i > 0 {
            ph.append(", ?");
        } else {
            ph.append("?");
        }
        assert(ph@ =~= placeholders_spec((i + 1) as nat));
    }
    let mut sql = String::from_str("INSERT INTO ");
    sql.append(table);
    sql.append(" VALUES (");
    sql.append(ph.as_str());
    sql.append(")");
    assert(sql@ =~= insert_sql_spec(table@, ncols as nat));
    sql
}

/// The fixed catalog query behind `.schema`: tables whose name starts with
/// `t`.
pub fn schema_query() -> (r: String)
    ensures
        r@ == "SELECT sql AS schema FROM sqlite_master WHERE name like 't%'"@,
{
    String::from_str("SELECT sql AS schema FROM sqlite_master WHERE name like 't%'")
}

/// The name of the table for the input at `index`: one input loads `t`,
/// several load `t1`, `t2`, ... in argument order.
pub open spec fn table_name_spec(index: nat, total: nat) -> Seq<char> {
    if total == 1 {
        "t"@
    } else {
        "t"@ + dec_spec(index + 1)
    }
}

/// Builds the table name for the input at `index` of `total`.
pub fn table_name_for(index: u64, total: u64) -> (r: String)
    requires
        index < total,
    ensures
        r@ == table_name_spec(index as nat, total as nat),
{
    if total == 1 {
        String::from_str("t")
    } else {
        let mut s = String::from_str("t");
        let digits = u64_to_dec_chars(index + 1);
        append_chars(&mut s, &digits);
        assert(s@ =~= table_name_spec(index as nat, total as nat));
        s
    }
}

} // verus!
