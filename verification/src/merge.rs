//! The merge tool's logic: which working database to merge into, which
//! files to merge, and the SQL that copies a table.
use vstd::prelude::*;
use crate::bz2::{bz2_decompress, bz2_decompressed};
use crate::clock::secs_since_epoch;
use crate::paths::{extension, extension_of};
use crate::text::{decimal, decimal_string};

verus! {

/// Why merging failed.
#[derive(Clone, Copy, Debug, PartialEq, Eq)]
pub enum MergeError {
    /// No `.bz2` file to seed the working database from.
    NoBz2Files,
    /// A file is not a valid bzip2 stream.
    Decompress,
}

/// The working database when one exists in the current directory.
pub const ALL_REPORTS_DB: &'static str = "all_reports.db";

/// The reporter's own database, used as working database when present.
pub const REPORTER_DB: &'static str = "emacs_reporter.db";

/// Seconds since the Unix epoch, in decimal, for error-log lines.
pub fn timestamp() -> (r: String)
    ensures
        exists|secs: u64| r@ == decimal(secs as nat),
{
    decimal_string(secs_since_epoch())
}

/// `path` has the extension `bz2`.
pub open spec fn is_bz2_path(path: Seq<char>) -> bool {
    extension(path) == Some("bz2"@)
}

/// Whether the path has the extension `bz2`.
pub fn has_bz2_extension(path: &str) -> (r: bool)
    ensures
        r == is_bz2_path(path@),
{
    match extension_of(path) {
        Some(e) => String::from_str(e) == String::from_str("bz2"),
        None => false,
    }
}

/// The paths among `paths` with extension `bz2`, in order.
pub open spec fn bz2_paths(paths: Seq<Seq<char>>) -> Seq<Seq<char>> {
    paths.filter(|p: Seq<char>| is_bz2_path(p))
}

/// Keeps the `.bz2` files of a directory listing.
pub fn bz2_files(paths: &Vec<String>) -> (r: Vec<String>)
    ensures
        r@.map_values(|s: String| s@) == bz2_paths(paths@.map_values(|s: String| s@)),
{
    let ghost views = paths@.map_values(|s: String| s@);
    let mut out: Vec<String> = Vec::new();
    let mut i: usize = 0;
    while i < paths.len()
        invariant
            i <= paths.len(),
            views == paths@.map_values(|s: String| s@),
            out@.map_values(|s: String| s@) == views.take(i as int).filter(|p: Seq<char>| is_bz2_path(p)),
        decreases paths.len() - i,
    {
        let ghost before = out@;
        proof {
            assert(views.take(i + 1).drop_last() =~= views.take(i as int));
            reveal_with_fuel(Seq::filter, 1);
        }
        if has_bz2_extension(paths[i].as_str()) {
            out.push(paths[i].clone());
            assert(out@.map_values(|s: String| s@) =~= before.map_values(|s: String| s@).push(paths@[i as int]@));
        }
        i = i + 1;
    }
    assert(views.take(paths.len() as int) =~= views);
    out
}

/// Which database the merge writes into.
#[derive(Debug)]
pub enum OutputPlan {
    /// Merge into this existing database.
    UseExisting { path: String },
    /// Decompress `source` into `target` first, then merge into `target`.
    SeedFrom { source: String, target: String },
}

/// Chooses the working database: `all_reports.db` if it exists, else
/// `emacs_reporter.db` if it exists, else a new `all_reports.db` seeded from
/// the first of the sorted `.bz2` files; an error when there is none.
pub fn plan_output_path(all_reports_exists: bool, reporter_db_exists: bool, sorted_bz2: &Vec<String>) -> (r: Result<OutputPlan, MergeError>)
    ensures
        all_reports_exists ==> (r matches Ok(OutputPlan::UseExisting { path }) && path@ == ALL_REPORTS_DB@),
        !all_reports_exists && reporter_db_exists ==> (r matches Ok(OutputPlan::UseExisting { path })
            && path@ == REPORTER_DB@),
        !all_reports_exists && !reporter_db_exists && sorted_bz2.len() == 0 ==> r == Err::<OutputPlan, MergeError>(MergeError::NoBz2Files),
        !all_reports_exists && !reporter_db_exists && sorted_bz2.len() > 0 ==> (r matches Ok(
            OutputPlan::SeedFrom { source, target },
        ) && source@ == sorted_bz2@[0]@ && target@ == ALL_REPORTS_DB@),
{
    if all_reports_exists {
        return Ok(OutputPlan::UseExisting { path: String::from_str(ALL_REPORTS_DB) });
    }
    if reporter_db_exists {
        return Ok(OutputPlan::UseExisting { path: String::from_str(REPORTER_DB) });
    }
    if sorted_bz2.len() == 0 {
        return Err(MergeError::NoBz2Files);
    }
    Ok(OutputPlan::SeedFrom { source: sorted_bz2[0].clone(), target: String::from_str(ALL_REPORTS_DB) })
}

/// Decompresses a `.bz2` report.
pub fn decompress(data: &[u8]) -> (r: Result<Vec<u8>, MergeError>)
    ensures
        match bz2_decompressed(data@) {
            Some(d) => r matches Ok(v) && v@ == d,
            None => r == Err::<Vec<u8>, MergeError>(MergeError::Decompress),
        },
{
    match bz2_decompress(data) {
        Ok(v) => Ok(v),
        Err(_) => Err(MergeError::Decompress),
    }
}

// ── SQL ──────────────────────────────────────────────────────────────────────

/// `prefix` + each item, separated by `", "`.
pub open spec fn comma_list(items: Seq<Seq<char>>, prefix: Seq<char>) -> Seq<char>
    decreases items.len(),
{
    if items.len() == 0 {
        Seq::empty()
    } else if items.len() == 1 {
        prefix + items[0]
    } else {
        comma_list(items.drop_last(), prefix) + ", "@ + prefix + items.last()
    }
}

/// A list of one item is the prefixed item.
pub proof fn law_comma_list_single(x: Seq<char>, prefix: Seq<char>)
    ensures
        comma_list(seq![x], prefix) == prefix + x,
{
}

/// The list of two non-empty runs of items is the list of the first run,
/// `", "`, and the list of the second: no item is dropped, repeated or
/// moved, however long the lists are.
pub proof fn law_comma_list_concat(a: Seq<Seq<char>>, b: Seq<Seq<char>>, prefix: Seq<char>)
    requires
        a.len() > 0,
        b.len() > 0,
    ensures
        comma_list(a + b, prefix) == comma_list(a, prefix) + ", "@ + comma_list(b, prefix),
    decreases b.len(),
{
    let ab = a + b;
    assert(ab.len() >= 2);
    assert(ab.drop_last() =~= a + b.drop_last());
    assert(ab.last() == b.last());
    if b.len() == 1 {
        assert(a + b.drop_last() =~= a);
        assert(b[0] == b.last());
    } else {
        law_comma_list_concat(a, b.drop_last(), prefix);
        assert(comma_list(ab, prefix) =~= comma_list(a, prefix) + ", "@ + (comma_list(b.drop_last(), prefix)
            + ", "@ + prefix + b.last()));
    }
}

/// Item `k` of a list appears in it as `prefix` + that item, after the
/// list of the items before it and its separator, and before its
/// separator and the list of the items after it.
pub proof fn law_comma_list_item(items: Seq<Seq<char>>, prefix: Seq<char>, k: int)
    requires
        0 <= k < items.len(),
    ensures
        comma_list(items, prefix) == (if k > 0 { comma_list(items.take(k), prefix) + ", "@ } else {
            Seq::empty()
        }) + prefix + items[k] + (if k + 1 < items.len() {
            ", "@ + comma_list(items.skip(k + 1), prefix)
        } else {
            Seq::empty()
        }),
{
    let mid = seq![items[k]];
    law_comma_list_single(items[k], prefix);
    let head = items.take(k);
    let tail = items.skip(k + 1);
    assert(items =~= head + mid + tail);
    if k > 0 && k + 1 < items.len() {
        law_comma_list_concat(head, mid, prefix);
        law_comma_list_concat(head + mid, tail, prefix);
        assert(comma_list(items, prefix) =~= comma_list(head, prefix) + ", "@ + (prefix + items[k]) + ", "@
            + comma_list(tail, prefix));
    } else if k > 0 {
        assert(tail.len() == 0);
        assert(head + mid + tail =~= head + mid);
        law_comma_list_concat(head, mid, prefix);
        assert(comma_list(items, prefix) =~= comma_list(head, prefix) + ", "@ + (prefix + items[k]));
    } else if k + 1 < items.len() {
        assert(head + mid + tail =~= mid + tail);
        law_comma_list_concat(mid, tail, prefix);
        assert(comma_list(items, prefix) =~= (prefix + items[k]) + ", "@ + comma_list(tail, prefix));
    } else {
        assert(head + mid + tail =~= mid);
        assert(comma_list(items, prefix) =~= prefix + items[k]);
    }
}

fn push_comma_list(s: &mut String, items: &Vec<String>, prefix: &str)
    ensures
        final(s)@ == old(s)@ + comma_list(items@.map_values(|c: String| c@), prefix@),
{
    let ghost views = items@.map_values(|c: String| c@);
    let ghost start = s@;
    let mut i: usize = 0;
    while i < items.len()
        invariant
            i <= items.len(),
            views == items@.map_values(|c: String| c@),
            s@ == start + comma_list(views.take(i as int), prefix@),
        decreases items.len() - i,
    {
        proof {
            assert(views.take(i + 1).drop_last() =~= views.take(i as int));
        }
        if i > 0 {
            s.append(", ");
        }
        s.append(prefix);
        s.append(items[i].as_str());
        proof {
            if i == 0 {
                assert(views.take(1)[0] == views[0]);
            }
            assert(s@ =~= start + comma_list(views.take(i + 1), prefix@));
        }
        i = i + 1;
    }
    assert(views.take(items.len() as int) =~= views);
}

/// `PRAGMA table_info("<table>")`.
pub open spec fn table_info_statement(table: Seq<char>) -> Seq<char> {
    "PRAGMA table_info(\""@ + table + "\")"@
}

/// The query listing a table's columns.
pub fn table_info_sql(table: &str) -> (r: String)
    ensures
        r@ == table_info_statement(table@),
{
    let mut s = String::from_str("PRAGMA table_info(\"");
    s.append(table);
    s.append("\")");
    s
}

/// `SELECT <c1>, <c2>, … FROM "<table>"`.
pub open spec fn select_statement(table: Seq<char>, columns: Seq<Seq<char>>) -> Seq<char> {
    "SELECT "@ + comma_list(columns, Seq::empty()) + " FROM \""@ + table + "\""@
}

/// `INSERT OR IGNORE INTO "<table>" (<c1>, …) VALUES (:<c1>, …)`.
pub open spec fn insert_statement(table: Seq<char>, columns: Seq<Seq<char>>) -> Seq<char> {
    "INSERT OR IGNORE INTO \""@ + table + "\" ("@ + comma_list(columns, Seq::empty()) + ") VALUES ("@
        + comma_list(columns, ":"@) + ")"@
}

/// The query reading all rows of a table, column by column.
pub fn select_sql(table: &str, columns: &Vec<String>) -> (r: String)
    ensures
        r@ == select_statement(table@, columns@.map_values(|c: String| c@)),
{
    let mut s = String::from_str("SELECT ");
    proof { reveal_strlit(""); }
    push_comma_list(&mut s, columns, "");
    s.append(" FROM \"");
    s.append(table);
    s.append("\"");
    assert(""@ =~= Seq::<char>::empty());
    s
}

/// The statement inserting one row of a table by named parameters,
/// ignoring rows that already exist.
pub fn insert_sql(table: &str, columns: &Vec<String>) -> (r: String)
    ensures
        r@ == insert_statement(table@, columns@.map_values(|c: String| c@)),
{
    let mut s = String::from_str("INSERT OR IGNORE INTO \"");
    s.append(table);
    s.append("\" (");
    proof { reveal_strlit(""); }
    push_comma_list(&mut s, columns, "");
    s.append(") VALUES (");
    push_comma_list(&mut s, columns, ":");
    s.append(")");
    assert(""@ =~= Seq::<char>::empty());
    s
}

/// What the merge does with one table of a report.
#[derive(Debug)]
pub enum TableAction {
    /// The working database has no such table: the schemas differ.
    SkipUnknown,
    /// The table has no columns.
    SkipNoColumns,
    /// Copy its rows with these statements.
    Copy { select_sql: String, insert_sql: String },
}

/// Plans the copy of `table`, given how many tables of that name the
/// working database has and the report's columns of it.
pub fn plan_table(table: &str, dst_table_count: i64, columns: &Vec<String>) -> (r: TableAction)
    ensures
        dst_table_count <= 0 ==> r is SkipUnknown,
        dst_table_count > 0 && columns.len() == 0 ==> r is SkipNoColumns,
        dst_table_count > 0 && columns.len() > 0 ==> (r matches TableAction::Copy { select_sql, insert_sql }
            && select_sql@ == select_statement(table@, columns@.map_values(|c: String| c@))
            && insert_sql@ == insert_statement(table@, columns@.map_values(|c: String| c@))),
{
    if dst_table_count <= 0 {
        return TableAction::SkipUnknown;
    }
    if columns.len() == 0 {
        return TableAction::SkipNoColumns;
    }
    TableAction::Copy { select_sql: select_sql(table, columns), insert_sql: insert_sql(table, columns) }
}

/// The name a failed report is copied under for inspection: `error_<file>`.
pub fn error_copy_name(filename: &str) -> (r: String)
    ensures
        r@ == "error_"@ + filename@,
{
    let mut s = String::from_str("error_");
    s.append(filename);
    s
}

} // verus!
