//! Named query parameters (`@name`) and their conversion to the positional
//! placeholders of the database (`$1`, `$2`, ... or `?`).
use vstd::prelude::*;
use crate::database::Database;
use crate::regex_scan::{regex_scan, scan_all, assemble, group_or_empty};
use crate::text::{decimal, push_decimal, string_of, str_eq, seq_has, contains_char};

verus! {

/// A named parameter: `@`, then a letter or `_`, then letters, digits and
/// `_`; not preceded by a letter, digit, `_`, `@` or `'` (so e-mail addresses,
/// `@@version` and quoted text are left alone). Group 1 is the character
/// before the `@` (or nothing at the start), group 2 the name.
pub const NAMED_PARAM_PATTERN: &'static str = "(^|[^A-Za-z0-9_@'])@([A-Za-z_][A-Za-z0-9_]*)";

/// The scan of `sql` for named parameters.
pub open spec fn named_scan(sql: Seq<char>) -> Result<(Seq<(Seq<char>, Seq<Option<Seq<char>>>)>, Seq<char>), Seq<char>> {
    regex_scan(NAMED_PARAM_PATTERN@, sql)
}

/// Whether `sql` holds a named parameter, or the matcher's error.
pub fn named_param_is_match(sql: &str) -> (r: Result<bool, String>)
    ensures
        match named_scan(sql@) {
            Ok((segs, _)) => r matches Ok(b) && b == (segs.len() > 0),
            Err(msg) => r matches Err(e) && e@ == msg,
        },
{
    match scan_all(NAMED_PARAM_PATTERN, sql) {
        Ok((segs, _)) => Ok(segs.len() > 0),
        Err(e) => Err(e),
    }
}

/// The names of the parameters in the order they are found, or the
/// matcher's error.
pub fn named_param_names(sql: &str) -> (r: Result<Vec<String>, String>)
    ensures
        match named_scan(sql@) {
            Ok((segs, _)) => r matches Ok(v) && v.deep_view() == segs.map_values(
                |s: (Seq<char>, Seq<Option<Seq<char>>>)| group_or_empty(s.1, 2),
            ),
            Err(msg) => r matches Err(e) && e@ == msg,
        },
{
    match scan_all(NAMED_PARAM_PATTERN, sql) {
        Ok((segs, _)) => {
            let mut out: Vec<String> = Vec::new();
            let mut i: usize = 0;
            while i < segs.len()
                invariant
                    i <= segs@.len(),
                    out.deep_view() =~= segs.deep_view().subrange(0, i as int).map_values(
                        |s: (Seq<char>, Seq<Option<Seq<char>>>)| group_or_empty(s.1, 2),
                    ),
                decreases segs@.len() - i,
            {
                let name = group_text(&segs[i].1, 2);
                let ghost before = out.deep_view();
                out.push(string_of(name));
                proof {
                    let dv = segs.deep_view();
                    assert(dv[i as int].1 == segs@[i as int].1.deep_view());
                    assert(out.deep_view() =~= before.push(name@));
                    assert(dv.subrange(0, i + 1) =~= dv.subrange(0, i as int).push(dv[i as int]));
                }
                i = i + 1;
            }
            proof {
                assert(segs.deep_view().subrange(0, segs@.len() as int) =~= segs.deep_view());
            }
            Ok(out)
        },
        Err(e) => Err(e),
    }
}

/// Group `i` of a match, or the empty text.
pub fn group_text(groups: &Vec<Option<String>>, i: usize) -> (r: &str)
    ensures
        r@ == group_or_empty(groups.deep_view(), i as int),
{
    proof { reveal_strlit(""); }
    if i < groups.len() {
        assert(groups.deep_view()[i as int] == groups@[i as int].deep_view());
        match &groups[i] {
            Some(g) => g.as_str(),
            None => "",
        }
    } else {
        proof { reveal_strlit(""); }
        ""
    }
}

/// The placeholder number of `n`: one more than its (last) position in
/// `names`, if it is there.
pub open spec fn position_of(names: Seq<Seq<char>>, n: Seq<char>) -> Option<nat>
    decreases names.len(),
{
    if names.len() == 0 {
        None
    } else if names.last() == n {
        Some(names.len())
    } else {
        position_of(names.drop_last(), n)
    }
}

/// The placeholder for parameter number `k`.
pub open spec fn placeholder_text(k: nat, db: Database) -> Seq<char> {
    if db.uses_question_mark() { seq!['?'] } else { seq!['$'] + decimal(k) }
}

/// What one match becomes: the character before the `@`, then the
/// placeholder of the name, or the name as it was when it is unknown.
pub open spec fn named_replacement(g: Seq<Option<Seq<char>>>, names: Seq<Seq<char>>, db: Database) -> Seq<char> {
    let prefix = group_or_empty(g, 1);
    let name = group_or_empty(g, 2);
    match position_of(names, name) {
        Some(k) => prefix + placeholder_text(k, db),
        None => prefix + seq!['@'] + name,
    }
}

/// The unknown names among the matches, each once, in order of appearance.
pub open spec fn unknown_names(segs: Seq<(Seq<char>, Seq<Option<Seq<char>>>)>, names: Seq<Seq<char>>) -> Seq<Seq<char>>
    decreases segs.len(),
{
    if segs.len() == 0 {
        Seq::empty()
    } else {
        let u = unknown_names(segs.drop_last(), names);
        let n = group_or_empty(segs.last().1, 2);
        if position_of(names, n) is None && !u.contains(n) { u.push(n) } else { u }
    }
}

/// `names` without repeats, first occurrences kept.
pub open spec fn distinct_names(names: Seq<Seq<char>>) -> Seq<Seq<char>>
    decreases names.len(),
{
    if names.len() == 0 {
        Seq::empty()
    } else {
        let d = distinct_names(names.drop_last());
        if d.contains(names.last()) { d } else { d.push(names.last()) }
    }
}

/// `items` joined by `sep`.
pub open spec fn join(items: Seq<Seq<char>>, sep: Seq<char>) -> Seq<char>
    decreases items.len(),
{
    if items.len() == 0 {
        Seq::empty()
    } else if items.len() == 1 {
        items[0]
    } else {
        join(items.drop_last(), sep) + sep + items.last()
    }
}

/// The error for unknown named parameters.
pub open spec fn unknown_message(unknown: Seq<Seq<char>>, available: Seq<Seq<char>>) -> Seq<char> {
    "Unknown named parameters in SQL: ["@ + join(unknown, ", "@) + "]. Available parameters: ["@ + join(
        available,
        ", "@,
    ) + "]"@
}

/// The prefix of the error for a failing matcher.
pub open spec fn regex_error_prefix() -> Seq<char> {
    "Regex error checking for named parameters: "@
}

/// What converting named parameters gives: `sql` unchanged when it has no
/// `@`, no named parameter or no parameter to number; the matcher's error;
/// the unknown names; or `sql` with every name replaced by its placeholder.
pub open spec fn conversion_spec(sql: Seq<char>, names: Seq<Seq<char>>, db: Database) -> Result<Seq<char>, Seq<char>> {
    if !seq_has(sql, '@') {
        Ok(sql)
    } else {
        match named_scan(sql) {
            Err(msg) => Err(regex_error_prefix() + msg),
            Ok((segs, tail)) => scanned_conversion(sql, segs, tail, names, db),
        }
    }
}

/// What the conversion of `sql` gives once the matcher has split it into the
/// pieces `segs` and the rest `tail`: `sql` when there is no named parameter
/// or no parameter to number; the unknown names; or the pieces put back
/// together with every name replaced by its placeholder.
pub open spec fn scanned_conversion(
    sql: Seq<char>,
    segs: Seq<(Seq<char>, Seq<Option<Seq<char>>>)>,
    tail: Seq<char>,
    names: Seq<Seq<char>>,
    db: Database,
) -> Result<Seq<char>, Seq<char>> {
    if segs.len() == 0 || names.len() == 0 {
        Ok(sql)
    } else if unknown_names(segs, names).len() > 0 {
        Err(unknown_message(unknown_names(segs, names), distinct_names(names)))
    } else {
        Ok(assemble(segs, |g: Seq<Option<Seq<char>>>| named_replacement(g, names, db)) + tail)
    }
}

/// `position_of` for exec values.
fn find_position(names: &Vec<String>, n: &str) -> (r: Option<usize>)
    ensures
        match r {
            Some(k) => position_of(names.deep_view(), n@) == Some(k as nat),
            None => position_of(names.deep_view(), n@) is None,
        },
{
    let mut i: usize = names.len();
    assert(names.deep_view().subrange(0, i as int) =~= names.deep_view());
    while i > 0
        invariant
            i <= names@.len(),
            position_of(names.deep_view(), n@) == position_of(names.deep_view().subrange(0, i as int), n@),
        decreases i,
    {
        let ghost sub = names.deep_view().subrange(0, i as int);
        proof {
            assert(sub.drop_last() =~= names.deep_view().subrange(0, i - 1));
            assert(sub.last() == names@[i - 1]@);
        }
        if str_eq(names[i - 1].as_str(), n) {
            return Some(i);
        }
        i = i - 1;
    }
    None
}

/// Whether `n` is in `v`.
pub(crate) fn contains_name(v: &Vec<String>, n: &str) -> (r: bool)
    ensures
        r == v.deep_view().contains(n@),
{
    let mut i: usize = 0;
    while i < v.len()
        invariant
            i <= v@.len(),
            forall|j: int| 0 <= j < i ==> v.deep_view()[j] != n@,
        decreases v@.len() - i,
    {
        if str_eq(v[i].as_str(), n) {
            assert(v.deep_view()[i as int] == n@);
            return true;
        }
        i = i + 1;
    }
    false
}

/// `join` for exec values.
pub fn join_names(items: &Vec<String>, sep: &str) -> (r: String)
    ensures
        r@ == join(items.deep_view(), sep@),
{
    let mut out = String::new();
    let mut i: usize = 0;
    while i < items.len()
        invariant
            i <= items@.len(),
            out@ == join(items.deep_view().subrange(0, i as int), sep@),
        decreases items@.len() - i,
    {
        proof {
            let sub = items.deep_view().subrange(0, i + 1);
            assert(sub.drop_last() =~= items.deep_view().subrange(0, i as int));
            if i == 0 {
                assert(sub[0] == items@[0]@);
            }
        }
        if i > 0 {
            out.append(sep);
        }
        out.append(items[i].as_str());
        proof {
            if i == 0 {
                assert(out@ =~= items.deep_view().subrange(0, 1)[0]);
            }
        }
        i = i + 1;
    }
    assert(items.deep_view().subrange(0, items@.len() as int) =~= items.deep_view());
    out
}

/// `distinct_names` for exec values.
fn distinct(names: &Vec<String>) -> (r: Vec<String>)
    ensures
        r.deep_view() == distinct_names(names.deep_view()),
{
    let mut out: Vec<String> = Vec::new();
    let mut i: usize = 0;
    while i < names.len()
        invariant
            i <= names@.len(),
            out.deep_view() == distinct_names(names.deep_view().subrange(0, i as int)),
        decreases names@.len() - i,
    {
        proof {
            let sub = names.deep_view().subrange(0, i + 1);
            assert(sub.drop_last() =~= names.deep_view().subrange(0, i as int));
        }
        if !contains_name(&out, names[i].as_str()) {
            let ghost before = out.deep_view();
            out.push(names[i].clone());
            assert(out.deep_view() =~= before.push(names@[i as int]@));
        }
        i = i + 1;
    }
    assert(names.deep_view().subrange(0, names@.len() as int) =~= names.deep_view());
    out
}

/// Converts named parameters (`@name`) in `sql` to the placeholders of
/// `db`, numbering the parameters named in `names` from 1 in that order
/// (`$1`, `$2`, ...; `?` for MySQL; a repeated name gets the same number).
/// Names not in `names` are an error that lists them (each once, in order of
/// appearance) and the available names (each once, in declaration order).
pub fn convert_named_to_positional(sql: &str, names: &Vec<String>, db: Database) -> (r: Result<String, String>)
    ensures
        match conversion_spec(sql@, names.deep_view(), db) {
            Ok(s) => r matches Ok(o) && o@ == s,
            Err(m) => r matches Err(e) && e@ == m,
        },
{
    if !contains_char(sql, '@') {
        return Ok(string_of(sql));
    }
    let (segs, tail) = match scan_all(NAMED_PARAM_PATTERN, sql) {
        Ok(found) => found,
        Err(e) => {
            let mut msg = string_of("Regex error checking for named parameters: ");
            msg.append(e.as_str());
            return Err(msg);
        },
    };
    convert_scanned_named_params(sql, &segs, &tail, names, db)
}

/// The conversion of `sql` (see `convert_named_to_positional`) from the
/// pieces `segs` and the rest `tail` that the matcher split it into.
pub fn convert_scanned_named_params(
    sql: &str,
    segs: &Vec<(String, Vec<Option<String>>)>,
    tail: &String,
    names: &Vec<String>,
    db: Database,
) -> (r: Result<String, String>)
    ensures
        match scanned_conversion(sql@, segs.deep_view(), tail@, names.deep_view(), db) {
            Ok(s) => r matches Ok(o) && o@ == s,
            Err(m) => r matches Err(e) && e@ == m,
        },
{
    if segs.len() == 0 || names.len() == 0 {
        return Ok(string_of(sql));
    }
    let ghost nv = names.deep_view();
    let ghost f = |g: Seq<Option<Seq<char>>>| named_replacement(g, nv, db);
    let mut out = String::new();
    let mut unknown: Vec<String> = Vec::new();
    let mut i: usize = 0;
    while i < segs.len()
        invariant
            i <= segs@.len(),
            nv == names.deep_view(),
            f == (|g: Seq<Option<Seq<char>>>| named_replacement(g, nv, db)),
            out@ == assemble(segs.deep_view().subrange(0, i as int), f),
            unknown.deep_view() == unknown_names(segs.deep_view().subrange(0, i as int), nv),
        decreases segs@.len() - i,
    {
        let (before, groups) = &segs[i];
        let ghost start = out@;
        let prefix = group_text(groups, 1);
        let name = group_text(groups, 2);
        out.append(before.as_str());
        out.append(prefix);
        let ghost out_before = out@;
        assert(out_before =~= start + before@ + prefix@);
        match find_position(names, name) {
            Some(k) => {
                match db {
                    Database::MySql => {
                        out.push('?');
                    },
                    _ => {
                        out.push('$');
                        push_decimal(&mut out, k);
                    },
                }
                proof {
                    assert(out@ =~= out_before + placeholder_text(k as nat, db));
                    assert(position_of(nv, name@) == Some(k as nat));
                    assert(named_replacement(groups.deep_view(), nv, db) == prefix@ + placeholder_text(k as nat, db));
                }
            },
            None => {
                out.push('@');
                out.append(name);
                assert(out@ =~= out_before + seq!['@'] + name@);
                assert(position_of(nv, name@) is None);
                assert(named_replacement(groups.deep_view(), nv, db) == prefix@ + seq!['@'] + name@);
                if !contains_name(&unknown, name) {
                    let ghost ub = unknown.deep_view();
                    unknown.push(string_of(name));
                    assert(unknown.deep_view() =~= ub.push(name@));
                }
            },
        }
        proof {
            let dv = segs.deep_view();
            assert(dv[i as int] == (before@, groups.deep_view()));
            assert(dv.subrange(0, i + 1).drop_last() =~= dv.subrange(0, i as int));
            assert(dv.subrange(0, i + 1).last() == dv[i as int]);
            assert(out@ =~= start + before@ + named_replacement(groups.deep_view(), nv, db));
            assert(f(dv[i as int].1) == named_replacement(groups.deep_view(), nv, db));
        }
        i = i + 1;
    }
    out.append(tail.as_str());
    proof {
        assert(segs.deep_view().subrange(0, segs@.len() as int) =~= segs.deep_view());
    }
    if unknown.len() > 0 {
        let avail = distinct(names);
        let mut msg = string_of("Unknown named parameters in SQL: [");
        msg.append(join_names(&unknown, ", ").as_str());
        msg.append("]. Available parameters: [");
        msg.append(join_names(&avail, ", ").as_str());
        msg.append("]");
        return Err(msg);
    }
    Ok(out)
}

} // verus!
