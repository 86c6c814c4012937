//! SQLx type-override syntax in column aliases (`'col!: Type'` and the like):
//! detecting it, reading the column name out of it, and removing it from SQL
//! before the SQL is run.
use vstd::prelude::*;
use crate::regex_scan::{regex_scan, scan_all, assemble, group_or_empty};
use crate::text::{find_char, seq_has, trim_range, trim_end_char_range, trim_spec, trim_end_by, string_of};

verus! {

/// The SQLx override syntax in a quoted alias: a quote (`'`, `"` or a
/// backtick), a column name, then `!`, `?`, `: Type`, `!: Type` or `?: Type`
/// (a trailing `!`/`?` after the type allowed), then the same quote. Group 2
/// is the column name. Lengths are bounded so matching stays fast.
pub const SQLX_CAST_PATTERN: &'static str = "(['\"`])([a-zA-Z_][a-zA-Z0-9_]{0,80})(?:[!?]|\\s{0,10}:\\s{0,10}[A-Za-z_][a-zA-Z0-9_<>:, ]{0,99}[!?]?|[!?]\\s{0,10}:\\s{0,10}[A-Za-z_][a-zA-Z0-9_<>:, ]{0,99}[!?]?)\\1";

/// The scan of `sql` for override syntax.
pub open spec fn cast_scan(sql: Seq<char>) -> Result<(Seq<(Seq<char>, Seq<Option<Seq<char>>>)>, Seq<char>), Seq<char>> {
    regex_scan(SQLX_CAST_PATTERN@, sql)
}

/// `sql` with each override alias replaced by its bare column name.
pub open spec fn cleaned_spec(segs: Seq<(Seq<char>, Seq<Option<Seq<char>>>)>, tail: Seq<char>) -> Seq<char> {
    assemble(segs, |g: Seq<Option<Seq<char>>>| group_or_empty(g, 2)) + tail
}

/// `sql` with override syntax removed, for a scan that succeeded.
pub open spec fn cleaned_of(sql: Seq<char>) -> Seq<char> {
    match cast_scan(sql) {
        Ok((segs, tail)) => cleaned_spec(segs, tail),
        Err(_) => sql,
    }
}

/// Whether `sql` contains override syntax, or the matcher's error.
pub fn sqlx_cast_is_match(sql: &str) -> (r: Result<bool, String>)
    ensures
        match cast_scan(sql@) {
            Ok((segs, _)) => r matches Ok(b) && b == (segs.len() > 0),
            Err(msg) => r matches Err(e) && e@ == msg,
        },
{
    match scan_all(SQLX_CAST_PATTERN, sql) {
        Ok((segs, _)) => Ok(segs.len() > 0),
        Err(e) => Err(e),
    }
}

/// Builds the text before each match followed by the match's group 2, then the tail.
fn assemble_group2(segs: &Vec<(String, Vec<Option<String>>)>, tail: &String) -> (r: String)
    ensures
        r@ == cleaned_spec(segs.deep_view(), tail@),
{
    let mut out = String::new();
    let mut i: usize = 0;
    let ghost f = |g: Seq<Option<Seq<char>>>| group_or_empty(g, 2);
    while i < segs.len()
        invariant
            i <= segs@.len(),
            f == (|g: Seq<Option<Seq<char>>>| group_or_empty(g, 2)),
            out@ == assemble(segs.deep_view().subrange(0, i as int), f),
        decreases segs@.len() - i,
    {
        let (before, groups) = &segs[i];
        out.append(before.as_str());
        if groups.len() > 2 {
            match &groups[2] {
                Some(g) => out.append(g.as_str()),
                None => {},
            }
        }
        proof {
            let dv = segs.deep_view();
            assert(dv.subrange(0, i + 1).drop_last() =~= dv.subrange(0, i as int));
            assert(dv[i as int] == (before@, groups.deep_view()));
        }
        i = i + 1;
    }
    out.append(tail.as_str());
    assert(segs.deep_view().subrange(0, segs@.len() as int) =~= segs.deep_view());
    out
}

/// `sql` with the override syntax removed from every alias, leaving the bare
/// column name (`'id!: i64'` becomes `id`); plain quoted aliases are kept.
/// Requires the matcher to succeed on `sql`.
pub fn clean_sqlx_cast_syntax_for_runtime(sql: &str) -> (r: String)
    requires
        cast_scan(sql@) is Ok,
    ensures
        r@ == cleaned_of(sql@),
{
    match scan_all(SQLX_CAST_PATTERN, sql) {
        Ok((segs, tail)) => assemble_group2(&segs, &tail),
        Err(_) => string_of(sql),
    }
}

/// `sql` with the override syntax removed, or the matcher's error: runs
/// the matcher, and where it succeeds calls
/// `clean_sqlx_cast_syntax_for_runtime`.
pub fn try_clean_sqlx_cast_syntax(sql: &str) -> (r: Result<String, String>)
    ensures
        match cast_scan(sql@) {
            Ok((segs, tail)) => r matches Ok(s) && s@ == cleaned_spec(segs, tail),
            Err(msg) => r matches Err(e) && e@ == msg,
        },
        // SQL without override syntax comes back unchanged.
        (cast_scan(sql@) matches Ok((segs, _)) && segs.len() == 0) ==> (r matches Ok(s) && s@ == sql@),
{
    match scan_all(SQLX_CAST_PATTERN, sql) {
        Ok((segs, tail)) => {
            proof {
                if segs@.len() == 0 {
                    assert(segs.deep_view().len() == 0);
                    assert(cleaned_spec(segs.deep_view(), tail@) =~= tail@);
                    assert(sql@ =~= tail@);
                }
            }
            Ok(clean_sqlx_cast_syntax_for_runtime(sql))
        },
        Err(e) => Err(e),
    }
}

/// The column name in an alias that may carry override syntax: the text
/// before the first `:` (trimmed), or the whole alias, without trailing `!`.
pub open spec fn column_name_spec(full: Seq<char>) -> Seq<char> {
    let base = if seq_has(full, ':') {
        trim_spec(full.subrange(0, first_index(full, ':') as int))
    } else {
        full
    };
    trim_end_by(base, false, '!')
}

/// Index of the first `c` in `s` (meaningful when `c` occurs).
pub open spec fn first_index(s: Seq<char>, c: char) -> int {
    choose|i: int| 0 <= i < s.len() && s[i] == c && forall|j: int| 0 <= j < i ==> s[j] != c
}

/// `"email_length!: i64"` gives `"email_length"`; `"name"` gives `"name"`.
pub fn extract_column_name(full_name: &str) -> (r: &str)
    ensures
        r@ == column_name_spec(full_name@),
{
    match find_char(full_name, ':') {
        Some(pos) => {
            let base = trim_range(full_name, 0, pos);
            proof {
                let k = first_index(full_name@, ':');
                assert(0 <= k < full_name@.len() && full_name@[k] == ':' && forall|j: int| 0 <= j < k ==> full_name@[j] != ':');
                assert(k == pos);
                assert(seq_has(full_name@, ':'));
                assert(base@.subrange(0, base@.len() as int) =~= base@);
            }
            trim_end_char_range(base, 0, base.unicode_len(), '!')
        },
        None => {
            assert(full_name@.subrange(0, full_name@.len() as int) =~= full_name@);
            assert(!seq_has(full_name@, ':'));
            trim_end_char_range(full_name, 0, full_name.unicode_len(), '!')
        },
    }
}

/// Whether a column alias carries an explicit type (`name: Type`).
pub fn has_explicit_sqlx_type(column_name: &str) -> (r: bool)
    ensures
        r == seq_has(column_name@, ':'),
{
    crate::text::contains_char(column_name, ':')
}

} // verus!
