//! Building the SQL of a query with dynamic parameters: the filters, the
//! search and the cursor condition are added to the `WHERE` clause of each
//! `SELECT` of the query, the sorting replaces its `ORDER BY`, the limit and
//! offset its `LIMIT`, and every value is bound to a new placeholder.
//!
//! What one `SELECT` binds, in order, its refusals, and when the numbering
//! of placeholders runs out are stated exactly (`select_binds`,
//! `process_select_query`); the `ORDER BY`, `LIMIT` and `OFFSET` handed to
//! the tree are stated too (`order_entries`, `limit_text`, `offset_text`).
//! The syntax trees, and the SQL `sqlparser` prints from them, are not
//! visible here: the SQL returned, and so the order that renumbering gives
//! the values, are stated only as a renumbering of some printed text.
use vstd::prelude::*;
use crate::cursor::CursorDirection;
use crate::database::Database;
use crate::filter::{Filter, FilterOperator, FilterValue, FilterValueView, values_view};
use crate::params::{Pagination, Params, SearchParams};
use crate::placeholders::{
    collect_numbered_placeholders, limit_view, nats, numbered, limit_placeholders, renumber_numbered_placeholders_with_binds,
    numbered_placeholders, renumber_spec, sort_desc2, trim_limit_offset_placeholder_binds,
};
use crate::sort::SortDirection;
use crate::sql_ast::{
    BinOp, OrderByClause, OrderKind, SelectParse, SelectParseKind, SetParts, select_parse, between, binary, column, ilike_escaped, in_list, is_not_null,
    is_null, join_set_expr, like_escaped, like_plain, limit_shape, function_call, nested, number, order_expr, parse_select,
    placeholder, put_body, put_order_by, query_statement, render_statement, select_put_selection, select_take_selection,
    set_limit_offset, split_set_expr, string_literal, take_body,
};
use crate::text::{decimal, push_decimal, push_decimal_u64, string_of};
use sqlparser::ast::{Expr, OrderByExpr, Query, Select, SetExpr};

verus! {

/// The lowercase of a text (`str::to_lowercase`: Unicode lowercasing).
pub uninterp spec fn lowercase(s: Seq<char>) -> Seq<char>;

/// The lowercase of `s`, by `str::to_lowercase`; a function of `s` alone.
#[verifier::external_body]
fn to_lowercase(s: &str) -> (r: String)
    ensures
        r@ == lowercase(s@),
{
    s.to_lowercase()
}

/// The `Debug` text of a string (`str`'s `Debug`: quoted, with escapes).
pub uninterp spec fn str_debug(s: Seq<char>) -> Seq<char>;

/// The `Debug` text of `s`, by `format!("{:?}", s)` on a `&str`; a
/// function of the text alone.
#[verifier::external_body]
pub(crate) fn quoted_debug(s: &str) -> (r: String)
    ensures
        r@ == str_debug(s@),
{
    format!("{:?}", s)
}

/// The decimal text of a signed number.
pub open spec fn signed_decimal(i: i64) -> Seq<char> {
    if i < 0 { "-"@ + decimal((-i) as nat) } else { decimal(i as nat) }
}

/// The bytes of a blob in decimal, separated by `, `.
pub open spec fn bytes_text(b: Seq<u8>) -> Seq<char>
    decreases b.len(),
{
    if b.len() == 0 {
        Seq::empty()
    } else if b.len() == 1 {
        decimal(b[0] as nat)
    } else {
        bytes_text(b.drop_last()) + ", "@ + decimal(b.last() as nat)
    }
}

/// The `Debug` text of a value that is not a list, as its variant's name
/// and content: a string quoted and escaped, numbers in decimal (a float by
/// its bit pattern, the form it is carried in), a blob as its bytes.
pub open spec fn debug_text(v: FilterValueView) -> Seq<char> {
    match v {
        FilterValueView::String(s) => "String("@ + str_debug(s) + ")"@,
        FilterValueView::Int(i) => "Int("@ + signed_decimal(i) + ")"@,
        FilterValueView::UInt(u) => "UInt("@ + decimal(u as nat) + ")"@,
        FilterValueView::Float(f) => "Float("@ + decimal(f as nat) + ")"@,
        FilterValueView::Bool(b) => "Bool("@ + (if b { "true"@ } else { "false"@ }) + ")"@,
        FilterValueView::Blob(b) => "Blob(["@ + bytes_text(b) + "])"@,
        FilterValueView::Null => "Null"@,
        FilterValueView::Array(_) => "Array"@,
    }
}

/// Appends the bytes of `b` in decimal, separated by `, `.
fn push_bytes(out: &mut String, b: &Vec<u8>)
    ensures
        final(out)@ == old(out)@ + bytes_text(b@),
{
    let ghost start = out@;
    let mut i: usize = 0;
    while i < b.len()
        invariant
            i <= b@.len(),
            out@ == start + bytes_text(b@.subrange(0, i as int)),
        decreases b@.len() - i,
    {
        let ghost before = out@;
        if i > 0 {
            out.append(", ");
        }
        push_decimal_u64(out, b[i] as u64);
        proof {
            let p = b@.subrange(0, i + 1);
            assert(p.drop_last() =~= b@.subrange(0, i as int));
            if i == 0 {
                assert(bytes_text(b@.subrange(0, 0)) =~= Seq::<char>::empty());
                assert(out@ =~= start + bytes_text(p));
            } else {
                assert(out@ =~= start + (bytes_text(p.drop_last()) + ", "@ + decimal(p.last() as nat)));
            }
        }
        i = i + 1;
    }
    assert(b@.subrange(0, b@.len() as int) =~= b@);
}

/// The `Debug` text of a value that is not a list (see `debug_text`).
fn value_debug(v: &FilterValue) -> (r: String)
    requires
        !(v@ is Array),
    ensures
        r@ == debug_text(v@),
{
    let mut out = String::new();
    let ghost e = out@;
    assert(e =~= Seq::<char>::empty());
    match v {
        FilterValue::String(s) => {
            out.append("String(");
            out.append(quoted_debug(s.as_str()).as_str());
        },
        FilterValue::Int(i) => {
            out.append("Int(");
            if *i < 0 {
                out.append("-");
                let magnitude: u64 = (0 - (*i as i128)) as u64;
                push_decimal_u64(&mut out, magnitude);
                assert(out@ =~= "Int("@ + signed_decimal(*i));
            } else {
                push_decimal_u64(&mut out, *i as u64);
                assert(out@ =~= "Int("@ + signed_decimal(*i));
            }
        },
        FilterValue::UInt(u) => {
            out.append("UInt(");
            push_decimal_u64(&mut out, *u);
        },
        FilterValue::Float(f) => {
            out.append("Float(");
            push_decimal_u64(&mut out, *f);
        },
        FilterValue::Bool(b) => {
            out.append("Bool(");
            if *b {
                out.append("true");
            } else {
                out.append("false");
            }
        },
        FilterValue::Blob(bytes) => {
            out.append("Blob([");
            push_bytes(&mut out, bytes);
            out.append("]");
            proof {
                reveal_strlit("Blob([");
                reveal_strlit("]");
                reveal_strlit("])");
                assert(out@ =~= "Blob(["@ + bytes_text(bytes@) + "]"@);
            }
        },
        FilterValue::Null => {
            out.append("Null");
            assert(out@ =~= "Null"@);
            return out;
        },
        FilterValue::Array(_) => {
            return out;
        },
    }
    let ghost body = out@;
    out.append(")");
    proof {
        reveal_strlit(")");
        reveal_strlit("])");
        reveal_strlit("]");
        assert(out@ =~= body + ")"@);
        assert(out@ =~= debug_text(v@));
    }
    out
}

/// Why building a query failed.
#[derive(Debug)]
pub enum BuildError {
    /// The parameters cannot be applied (the message says why).
    InvalidArgument(String),
    /// The SQL cannot be used (no statement, or not a query).
    Protocol(String),
    /// The SQL does not parse (the parser's message).
    Parser(String),
    /// More placeholders than the numbering can give (255 at most).
    TooManyPlaceholders,
}

/// What escaping one character of a `LIKE` pattern gives: `\`, `%` and
/// `_` get a `\` before them, so they match themselves.
pub open spec fn like_escape_char(c: char) -> Seq<char> {
    if c == '\\' || c == '%' || c == '_' { seq!['\\', c] } else { seq![c] }
}

/// A `LIKE` pattern that matches `s` literally (see `like_escape_char`).
pub open spec fn like_escape(s: Seq<char>) -> Seq<char>
    decreases s.len(),
{
    if s.len() == 0 {
        Seq::empty()
    } else {
        like_escape(s.drop_last()) + like_escape_char(s.last())
    }
}

/// A `LIKE` pattern that matches `s` literally.
fn escape_like(s: &str) -> (r: String)
    ensures
        r@ == like_escape(s@),
{
    let n = s.unicode_len();
    let mut out = String::new();
    let mut i: usize = 0;
    while i < n
        invariant
            n == s@.len(),
            i <= n,
            out@ == like_escape(s@.subrange(0, i as int)),
        decreases n - i,
    {
        let c = s.get_char(i);
        let ghost before = out@;
        if c == '\\' || c == '%' || c == '_' {
            out.push('\\');
        }
        out.push(c);
        proof {
            assert(s@.subrange(0, i + 1).drop_last() =~= s@.subrange(0, i as int));
            assert(out@ =~= before + like_escape_char(c));
        }
        i = i + 1;
    }
    assert(s@.subrange(0, n as int) =~= s@);
    out
}

/// The text a `LIKE` pattern with the escape character `\` stands for
/// when it holds no wildcard: `\c` stands for `c`, any other character
/// for itself; `None` when an unescaped `%` or `_` (a wildcard) or a lone
/// `\` at the end occurs.
pub open spec fn like_literal(p: Seq<char>) -> Option<Seq<char>>
    decreases p.len(),
{
    if p.len() == 0 {
        Some(Seq::empty())
    } else if p[0] == '\\' {
        if p.len() < 2 {
            None
        } else {
            match like_literal(p.subrange(2, p.len() as int)) {
                Some(t) => Some(seq![p[1]] + t),
                None => None,
            }
        }
    } else if p[0] == '%' || p[0] == '_' {
        None
    } else {
        match like_literal(p.subrange(1, p.len() as int)) {
            Some(t) => Some(seq![p[0]] + t),
            None => None,
        }
    }
}

/// Escaping a text is escaping its first character, then the rest.
proof fn lemma_like_escape_front(s: Seq<char>)
    requires
        s.len() > 0,
    ensures
        like_escape(s) == like_escape_char(s[0]) + like_escape(s.subrange(1, s.len() as int)),
    decreases s.len(),
{
    let rest = s.subrange(1, s.len() as int);
    if s.len() == 1 {
        assert(s.drop_last() =~= Seq::<char>::empty());
        assert(rest =~= Seq::<char>::empty());
        assert(like_escape(s) =~= like_escape_char(s[0]) + like_escape(rest));
    } else {
        let d = s.drop_last();
        lemma_like_escape_front(d);
        assert(d[0] == s[0]);
        assert(rest.drop_last() =~= d.subrange(1, d.len() as int));
        assert(rest.last() == s.last());
        assert(like_escape(s) =~= like_escape_char(s[0]) + like_escape(rest));
    }
}

/// A pattern made by `like_escape` has no wildcard and stands for exactly
/// the text it was made from: a `LIKE` with it (and the escape character
/// `\`) matches that text and nothing else.
pub proof fn law_like_escape_literal(s: Seq<char>)
    ensures
        like_literal(like_escape(s)) == Some(s),
    decreases s.len(),
{
    if s.len() == 0 {
        assert(like_escape(s) =~= Seq::<char>::empty());
    } else {
        let c = s[0];
        let rest = s.subrange(1, s.len() as int);
        lemma_like_escape_front(s);
        law_like_escape_literal(rest);
        let p = like_escape(s);
        assert(seq![c] + rest =~= s);
        if c == '\\' || c == '%' || c == '_' {
            assert(p[0] == '\\' && p[1] == c);
            assert(p.subrange(2, p.len() as int) =~= like_escape(rest));
        } else {
            assert(p[0] == c);
            assert(p.subrange(1, p.len() as int) =~= like_escape(rest));
        }
    }
}

/// A string value made a literal `LIKE` pattern; other values as they are.
fn escaped_filter_value(v: &FilterValue) -> (r: FilterValue)
    ensures
        r@ == escaped_value(v@),
{
    match v {
        FilterValue::String(s) => FilterValue::String(escape_like(s.as_str())),
        other => other.copy(),
    }
}

/// A string value made a literal `LIKE` pattern; other values as they are.
pub open spec fn escaped_value(v: FilterValueView) -> FilterValueView {
    match v {
        FilterValueView::String(s) => FilterValueView::String(like_escape(s)),
        other => other,
    }
}

/// The values a filter binds, in order, or why it is refused.
pub open spec fn filter_binds(f: Filter, db: Database) -> Result<Seq<FilterValueView>, Seq<char>> {
    let v = f.value@;
    match f.operator {
        FilterOperator::IsNull | FilterOperator::IsNotNull => Ok(Seq::empty()),
        FilterOperator::Like => Ok(seq![escaped_value(v)]),
        FilterOperator::ILike => if db is Postgres {
            Ok(seq![escaped_value(v)])
        } else {
            Ok(seq![match escaped_value(v) {
                FilterValueView::String(s) => FilterValueView::String(lowercase(s)),
                other => other,
            }])
        },
        FilterOperator::Between => match v {
            FilterValueView::Array(items) => if items.len() == 2 {
                Ok(items)
            } else {
                Err("Between operator requires exactly 2 values, got "@ + decimal(items.len()))
            },
            _ => Err("Between operator requires an array of values, got "@ + debug_text(v)),
        },
        FilterOperator::In => match v {
            FilterValueView::Array(items) => if items.len() > 0 {
                Ok(items)
            } else {
                Err("In operator requires at least 1 value, got empty array"@)
            },
            _ => Err("In operator requires an array of values, got "@ + debug_text(v)),
        },
        FilterOperator::NotIn => match v {
            FilterValueView::Array(items) => if items.len() > 0 {
                Ok(items)
            } else {
                Err("NotIn operator requires at least 1 value, got empty array"@)
            },
            _ => Err("NotIn operator requires an array of values, got "@ + debug_text(v)),
        },
        FilterOperator::Contains => match v {
            FilterValueView::String(s) => Ok(seq![FilterValueView::String("%"@ + like_escape(s) + "%"@)]),
            _ => Err("Contains operator only supports string values"@),
        },
        _ => Ok(seq![v]),
    }
}

/// The values a list of filters binds, in order, or the first refusal.
pub open spec fn filters_binds(fs: Seq<Filter>, db: Database) -> Result<Seq<FilterValueView>, Seq<char>>
    decreases fs.len(),
{
    if fs.len() == 0 {
        Ok(Seq::empty())
    } else {
        match filters_binds(fs.drop_last(), db) {
            Err(e) => Err(e),
            Ok(b) => match filter_binds(fs.last(), db) {
                Err(e) => Err(e),
                Ok(c) => Ok(b + c),
            },
        }
    }
}

/// The search pattern: the query, or `%query%` unless the match is exact.
pub open spec fn search_pattern(s: SearchParams) -> Seq<char> {
    if s.exact_match { s.query@ } else { "%"@ + s.query@ + "%"@ }
}

/// The values a search binds: the pattern once per field, when there are
/// fields and a query.
pub open spec fn search_binds(s: Option<SearchParams>) -> Seq<FilterValueView> {
    match s {
        Some(sp) => if sp.fields@.len() > 0 && sp.query@.len() > 0 {
            Seq::new(sp.fields@.len(), |i: int| FilterValueView::String(search_pattern(sp)))
        } else {
            Seq::empty()
        },
        None => Seq::empty(),
    }
}

/// The message for cursor values that do not match the sorting.
pub open spec fn cursor_count_message(values: nat, fields: nat) -> Seq<char> {
    "Number of cursor values ("@ + decimal(values) + ") must match number of sort fields ("@ + decimal(fields)
        + ")"@
}

/// The values the cursor condition from sort field `i` on binds: the
/// value of field `i`, then those of the fields after it, then, with MySQL
/// (which cannot reuse a placeholder) and when fields follow, the value of
/// field `i` once more.
pub open spec fn cursor_chain(vs: Seq<FilterValueView>, i: int, mysql: bool) -> Seq<FilterValueView>
    decreases vs.len() - i,
{
    if i < 0 || i >= vs.len() {
        Seq::empty()
    } else if i == vs.len() - 1 {
        seq![vs[i]]
    } else {
        seq![vs[i]] + cursor_chain(vs, i + 1, mysql) + (if mysql { seq![vs[i]] } else { Seq::empty() })
    }
}

/// The values a cursor condition binds (for a cursor with values), or why
/// it is refused (see `cursor_chain`).
pub open spec fn cursor_binds(p: Params, db: Database) -> Result<Seq<FilterValueView>, Seq<char>> {
    match p.pagination {
        Some(Pagination::Cursor(c)) => if c.values@.len() == 0 {
            Ok(Seq::empty())
        } else if c.error is Some {
            Err("Cursor decode failed: "@ + c.error->0@)
        } else {
            match p.sort_by {
                None => Err("Cursor pagination requires ORDER BY clause to be defined in sort_by"@),
                Some(sb) => if sb.entries().len() != c.values@.len() {
                    Err(cursor_count_message(c.values@.len(), sb.entries().len()))
                } else if c.direction is None {
                    Err("Cursor pagination is missing direction"@)
                } else {
                    Ok(cursor_chain(values_view(c.values@), 0, db is MySql))
                },
            }
        },
        _ => Ok(Seq::empty()),
    }
}

/// The values one `SELECT` binds, in order: the filters', the search's, the
/// cursor condition's; or the first refusal.
pub open spec fn select_binds(p: Params, db: Database) -> Result<Seq<FilterValueView>, Seq<char>> {
    let filters = match p.filters {
        Some(fp) => filters_binds(fp.filters@, db),
        None => Ok(Seq::empty()),
    };
    match filters {
        Err(e) => Err(e),
        Ok(fb) => match cursor_binds(p, db) {
            Err(e) => Err(e),
            Ok(cb) => Ok(fb + search_binds(p.search) + cb),
        },
    }
}

/// The values the filters of `p` bind (when they are not refused).
pub open spec fn filters_part(p: Params, db: Database) -> Seq<FilterValueView> {
    match p.filters {
        Some(fp) => filters_binds(fp.filters@, db)->Ok_0,
        None => Seq::empty(),
    }
}

/// The placeholders handed out: `?` for MySQL; `$n` otherwise, numbered
/// from one past the start, up to 255.
pub struct PlaceholderGen {
    pub question_mark: bool,
    pub next: u16,
}

impl PlaceholderGen {
    /// Placeholders numbered from `start + 1`.
    pub fn new(start: u8, db: Database) -> (r: Self)
        ensures
            r.question_mark == (db is MySql),
            r.next == start + 1,
    {
        PlaceholderGen { question_mark: db == Database::MySql, next: start as u16 + 1 }
    }

    /// The next placeholder, or `None` when the numbering ran out.
    pub fn placeholder(&mut self) -> (r: Option<Expr>)
        requires
            old(self).next <= 256,
        ensures
            final(self).question_mark == old(self).question_mark,
            final(self).next <= 256,
            old(self).question_mark ==> r is Some && final(self).next == old(self).next,
            !old(self).question_mark ==> (if old(self).next <= 255 {
                r is Some && final(self).next == old(self).next + 1
            } else {
                r is None && final(self).next == old(self).next
            }),
    {
        if self.question_mark {
            Some(placeholder("?"))
        } else if self.next <= 255 {
            let mut text = string_of("$");
            push_decimal(&mut text, self.next as usize);
            self.next = self.next + 1;
            Some(placeholder(text.as_str()))
        } else {
            None
        }
    }
}

/// Whether `n` more placeholders can be handed out from number `next`:
/// always with `?`, up to `$255` otherwise.
pub open spec fn numbering_fits(next: int, question_mark: bool, n: int) -> bool {
    question_mark || next + n <= 256
}

/// The number handed out next after `n` more placeholders.
pub open spec fn advanced(next: int, question_mark: bool, n: int) -> int {
    if question_mark { next } else { next + n }
}

/// What handing out the placeholders of `n` values did to the numbering:
/// it succeeded exactly when they fit, and moved on by `n` (`$`) or not
/// at all (`?`).
pub open spec fn numbered_as(
    before: PlaceholderGen,
    after: PlaceholderGen,
    n: int,
    ok: bool,
) -> bool {
    &&& ok <==> numbering_fits(before.next as int, before.question_mark, n)
    &&& ok ==> after.next == advanced(before.next as int, before.question_mark, n)
}

/// Binds `v`: adds it to the bound values and gives its placeholder.
fn bind(v: &FilterValue, binds: &mut Vec<FilterValue>, generator: &mut PlaceholderGen) -> (r: Result<Expr, BuildError>)
    requires
        old(generator).next <= 256,
    ensures
        final(generator).next <= 256,
        final(generator).question_mark == old(generator).question_mark,
        numbered_as(*old(generator), *final(generator), 1, r is Ok),
        r is Ok ==> values_view(final(binds)@) == values_view(old(binds)@).push(v@),
        r is Err ==> r->Err_0 is TooManyPlaceholders,
{
    match generator.placeholder() {
        Some(ph) => {
            let ghost before = values_view(binds@);
            binds.push(v.copy());
            assert(values_view(binds@) =~= before.push(v@));
            Ok(ph)
        },
        None => Err(BuildError::TooManyPlaceholders),
    }
}

/// An invalid-argument error with the message `m`.
fn invalid(m: String) -> (r: BuildError)
    ensures
        r matches BuildError::InvalidArgument(x) && x@ == m@,
{
    BuildError::InvalidArgument(m)
}

/// Whether a build error is the refusal `m` or the end of the numbering.
pub open spec fn refused_with(e: BuildError, m: Seq<char>) -> bool {
    (e matches BuildError::InvalidArgument(x) && x@ == m) || e is TooManyPlaceholders
}

/// Binds every value of `items`, in order.
fn bind_all(items: &Vec<FilterValue>, binds: &mut Vec<FilterValue>, generator: &mut PlaceholderGen) -> (r: Result<
    Vec<Expr>,
    BuildError,
>)
    requires
        old(generator).next <= 256,
    ensures
        final(generator).next <= 256,
        final(generator).question_mark == old(generator).question_mark,
        numbered_as(*old(generator), *final(generator), items@.len() as int, r is Ok),
        r is Ok ==> values_view(final(binds)@) == values_view(old(binds)@) + values_view(items@),
        r matches Ok(list) ==> list@.len() == items@.len(),
        r is Err ==> r->Err_0 is TooManyPlaceholders,
{
    let ghost start = values_view(binds@);
    let ghost g0 = *generator;
    let mut out: Vec<Expr> = Vec::new();
    let mut i: usize = 0;
    while i < items.len()
        invariant
            i <= items@.len(),
            g0 == *old(generator),
            generator.next <= 256,
            generator.question_mark == old(generator).question_mark,
            numbering_fits(g0.next as int, g0.question_mark, i as int),
            generator.next == advanced(g0.next as int, g0.question_mark, i as int),
            values_view(binds@) == start + values_view(items@.subrange(0, i as int)),
            out@.len() == i,
        decreases items@.len() - i,
    {
        let e = match bind(&items[i], binds, generator) {
            Ok(e) => e,
            Err(err) => return Err(err),
        };
        out.push(e);
        proof {
            assert(values_view(items@.subrange(0, i + 1)) =~= values_view(items@.subrange(0, i as int)).push(items@[i as int]@));
        }
        i = i + 1;
    }
    assert(items@.subrange(0, items@.len() as int) =~= items@);
    Ok(out)
}

/// The condition of one filter, binding its values (see `filter_binds`).
fn filter_condition(f: &Filter, binds: &mut Vec<FilterValue>, generator: &mut PlaceholderGen, db: Database) -> (r: Result<
    (Expr, Ghost<FilterShape>),
    BuildError,
>)
    requires
        old(generator).next <= 256,
        old(generator).question_mark == (db is MySql),
    ensures
        final(generator).next <= 256,
        final(generator).question_mark == old(generator).question_mark,
        match filter_binds(*f, db) {
            Ok(b) => numbered_as(*old(generator), *final(generator), b.len() as int, r is Ok) && (r is Ok
                ==> values_view(final(binds)@) == values_view(old(binds)@) + b) && (r is Err
                ==> r->Err_0 is TooManyPlaceholders),
            Err(m) => r matches Err(e) && refused_with(e, m),
        },
        r matches Ok((_, shape)) ==> shape@ == filter_shape(*f, db),
{
    let ghost before = values_view(binds@);
    let field = f.field.as_str();
    match f.operator {
        FilterOperator::IsNull => {
            assert(before + Seq::<FilterValueView>::empty() =~= before);
            return Ok(shaped_is_null(column(field)));
        },
        FilterOperator::IsNotNull => {
            assert(before + Seq::<FilterValueView>::empty() =~= before);
            return Ok(shaped_is_not_null(column(field)));
        },
        FilterOperator::Between => {
            return match &f.value {
                FilterValue::Array(items) => {
                    if items.len() != 2 {
                        let mut m = string_of("Between operator requires exactly 2 values, got ");
                        push_decimal(&mut m, items.len());
                        return Err(invalid(m));
                    }
                    let low = match bind(&items[0], binds, generator) {
                        Ok(e) => e,
                        Err(e) => return Err(e),
                    };
                    let high = match bind(&items[1], binds, generator) {
                        Ok(e) => e,
                        Err(e) => return Err(e),
                    };
                    assert(f.value@->Array_0 =~= values_view(items@));
                    assert(values_view(items@) =~= seq![items@[0]@, items@[1]@]);
                    assert(before.push(items@[0]@).push(items@[1]@) =~= before + values_view(items@));
                    Ok(shaped_between(column(field), low, high, f.not))
                },
                _ => {
                    let mut m = string_of("Between operator requires an array of values, got ");
                    m.append(value_debug(&f.value).as_str());
                    Err(invalid(m))
                },
            };
        },
        FilterOperator::In | FilterOperator::NotIn => {
            let is_in = match f.operator {
                FilterOperator::In => true,
                _ => false,
            };
            return match &f.value {
                FilterValue::Array(items) => {
                    if items.len() == 0 {
                        if is_in {
                            return Err(invalid(string_of("In operator requires at least 1 value, got empty array")));
                        } else {
                            return Err(
                                invalid(string_of("NotIn operator requires at least 1 value, got empty array")),
                            );
                        }
                    }
                    let list = match bind_all(items, binds, generator) {
                        Ok(l) => l,
                        Err(e) => return Err(e),
                    };
                    assert(f.value@->Array_0 =~= values_view(items@));
                    assert(f.value@->Array_0.len() == items@.len());
                    Ok(shaped_in_list(column(field), list, f.not))
                },
                _ => {
                    let mut m = if is_in {
                        string_of("In operator requires an array of values, got ")
                    } else {
                        string_of("NotIn operator requires an array of values, got ")
                    };
                    m.append(value_debug(&f.value).as_str());
                    Err(invalid(m))
                },
            };
        },
        FilterOperator::Contains => {
            return match &f.value {
                FilterValue::String(s) => {
                    let mut wrapped = string_of("%");
                    let escaped = escape_like(s.as_str());
                    wrapped.append(escaped.as_str());
                    wrapped.append("%");
                    let value = FilterValue::String(wrapped);
                    let ph = match bind(&value, binds, generator) {
                        Ok(e) => e,
                        Err(e) => return Err(e),
                    };
                    assert(before.push(value@) =~= before + seq![value@]);
                    Ok(shaped_like(f.not, column(field), ph, db))
                },
                _ => Err(invalid(string_of("Contains operator only supports string values"))),
            };
        },
        FilterOperator::ILike => {
            let escaped = escaped_filter_value(&f.value);
            if db == Database::Postgres {
                let ph = match bind(&escaped, binds, generator) {
                    Ok(e) => e,
                    Err(e) => return Err(e),
                };
                assert(before.push(escaped@) =~= before + seq![escaped@]);
                return Ok(shaped_ilike(f.not, column(field), ph));
            }
            let lowered = match &escaped {
                FilterValue::String(s) => FilterValue::String(to_lowercase(s.as_str())),
                other => other.copy(),
            };
            let ph = match bind(&lowered, binds, generator) {
                Ok(e) => e,
                Err(e) => return Err(e),
            };
            assert(before.push(lowered@) =~= before + seq![lowered@]);
            return Ok(shaped_lower_like(column(field), ph, db));
        },
        FilterOperator::Like => {
            let escaped = escaped_filter_value(&f.value);
            let ph = match bind(&escaped, binds, generator) {
                Ok(e) => e,
                Err(e) => return Err(e),
            };
            assert(before.push(escaped@) =~= before + seq![escaped@]);
            return Ok(shaped_like(f.not, column(field), ph, db));
        },
        _ => {},
    }
    let ph = match bind(&f.value, binds, generator) {
        Ok(e) => e,
        Err(e) => return Err(e),
    };
    assert(before.push(f.value@) =~= before + seq![f.value@]);
    let col = column(field);
    Ok(match f.operator {
        FilterOperator::UnsafeLike => shaped_unsafe_like(f.not, col, ph),
        FilterOperator::Eq | FilterOperator::Ne | FilterOperator::Gt | FilterOperator::Gte | FilterOperator::Lt
        | FilterOperator::Lte => compare(comparison_binop(f.operator), col, ph),
        _ => shaped_like(f.not, col, ph, db),
    })
}

/// The SQL comparison of a comparison filter: `=`, `<>`, `>`, `>=`, `<`,
/// `<=` for `Eq`, `Ne`, `Gt`, `Gte`, `Lt`, `Lte`; `None` for the others.
pub open spec fn comparison_op(o: FilterOperator) -> Option<BinOp> {
    match o {
        FilterOperator::Eq => Some(BinOp::Eq),
        FilterOperator::Ne => Some(BinOp::NotEq),
        FilterOperator::Gt => Some(BinOp::Gt),
        FilterOperator::Gte => Some(BinOp::GtEq),
        FilterOperator::Lt => Some(BinOp::Lt),
        FilterOperator::Lte => Some(BinOp::LtEq),
        _ => None,
    }
}

/// The SQL comparison of a comparison filter (see `comparison_op`).
fn comparison_binop(o: FilterOperator) -> (r: BinOp)
    requires
        comparison_op(o) is Some,
    ensures
        comparison_op(o) == Some(r),
{
    match o {
        FilterOperator::Eq => BinOp::Eq,
        FilterOperator::Ne => BinOp::NotEq,
        FilterOperator::Gt => BinOp::Gt,
        FilterOperator::Gte => BinOp::GtEq,
        FilterOperator::Lt => BinOp::Lt,
        _ => BinOp::LtEq,
    }
}

/// What a comparison filter asks of a row's value `a` against the filter's
/// value `b`: equal, different, greater, at least, less, at most.
pub open spec fn filter_asks(o: FilterOperator, a: int, b: int) -> bool {
    match o {
        FilterOperator::Eq => a == b,
        FilterOperator::Ne => a != b,
        FilterOperator::Gt => a > b,
        FilterOperator::Gte => a >= b,
        FilterOperator::Lt => a < b,
        FilterOperator::Lte => a <= b,
        _ => false,
    }
}

/// What the SQL comparison `a op b` holds of two numbers.
pub open spec fn sql_comparison_holds(op: BinOp, a: int, b: int) -> bool {
    match op {
        BinOp::Eq => a == b,
        BinOp::NotEq => a != b,
        BinOp::Gt => a > b,
        BinOp::GtEq => a >= b,
        BinOp::Lt => a < b,
        BinOp::LtEq => a <= b,
        _ => false,
    }
}

/// Every comparison filter becomes the SQL comparison that selects exactly
/// the rows it asks for: for all values `a` of the column and `b` of the
/// filter, `column op $n` holds exactly when the filter asks it to (so `Gte`
/// keeps the row whose value equals the filter's, `Gt` drops it).
pub proof fn law_comparisons_select_what_filters_ask(o: FilterOperator, a: int, b: int)
    requires
        comparison_op(o) is Some,
    ensures
        sql_comparison_holds(comparison_op(o)->0, a, b) == filter_asks(o, a, b),
{
}

/// The form of a filter's condition: a comparison, `IS [NOT] NULL`,
/// `[NOT] BETWEEN`, `[NOT] IN` a list of so many placeholders, a `LIKE` with
/// the escape (`[NOT] LIKE`), a plain one (`[NOT] LIKE`, wildcards kept),
/// `[NOT] ILIKE`, or `LOWER(field) LIKE` (case-insensitive where there is no
/// `ILIKE`).
pub enum FilterShape {
    Compare(BinOp),
    IsNull,
    IsNotNull,
    Between(bool),
    InList(bool, nat),
    Like(bool),
    UnsafeLike(bool),
    ILike(bool),
    LowerLike,
}

/// The form of the condition of an accepted filter (see `FilterShape`).
pub open spec fn filter_shape(f: Filter, db: Database) -> FilterShape {
    match f.operator {
        FilterOperator::IsNull => FilterShape::IsNull,
        FilterOperator::IsNotNull => FilterShape::IsNotNull,
        FilterOperator::Between => FilterShape::Between(f.not),
        FilterOperator::In | FilterOperator::NotIn => FilterShape::InList(f.not, f.value@->Array_0.len()),
        FilterOperator::Like | FilterOperator::Contains => FilterShape::Like(f.not),
        FilterOperator::UnsafeLike => FilterShape::UnsafeLike(f.not),
        FilterOperator::ILike => if db is Postgres { FilterShape::ILike(f.not) } else { FilterShape::LowerLike },
        _ => FilterShape::Compare(comparison_op(f.operator)->0),
    }
}

/// A filter's condition tests the filter's column the way its operator
/// says, negated exactly as the filter is: `IS NULL` for `IsNull` and
/// `IS NOT NULL` for `IsNotNull` (never the other way round), `BETWEEN`,
/// `IN` and every `LIKE` form negated exactly when the filter's `not` is
/// set, an `IN` list with one placeholder per value of the filter, and a
/// comparison whose SQL operator keeps exactly the rows the filter asks for.
pub proof fn law_filter_conditions_follow_filters(f: Filter, db: Database, a: int, b: int)
    ensures
        f.operator == FilterOperator::IsNull ==> filter_shape(f, db) == FilterShape::IsNull,
        f.operator == FilterOperator::IsNotNull ==> filter_shape(f, db) == FilterShape::IsNotNull,
        f.operator == FilterOperator::Between ==> (filter_shape(f, db) matches FilterShape::Between(neg) && neg == f.not),
        (f.operator == FilterOperator::In || f.operator == FilterOperator::NotIn) ==> (filter_shape(f, db) matches FilterShape::InList(neg, n)
            && neg == f.not && n == f.value@->Array_0.len()),
        (f.operator == FilterOperator::Like || f.operator == FilterOperator::Contains) ==> (filter_shape(f, db) matches FilterShape::Like(neg)
            && neg == f.not),
        f.operator == FilterOperator::UnsafeLike ==> (filter_shape(f, db) matches FilterShape::UnsafeLike(neg) && neg == f.not),
        (f.operator == FilterOperator::ILike && db is Postgres) ==> (filter_shape(f, db) matches FilterShape::ILike(neg) && neg
            == f.not),
        comparison_op(f.operator) is Some ==> (filter_shape(f, db) matches FilterShape::Compare(op)
            && sql_comparison_holds(op, a, b) == filter_asks(f.operator, a, b)),
{
    if comparison_op(f.operator) is Some {
        law_comparisons_select_what_filters_ask(f.operator, a, b);
    }
}

/// `col op ph`, with its form.
fn compare(op: BinOp, col: Expr, ph: Expr) -> (r: (Expr, Ghost<FilterShape>))
    ensures
        r.1@ == FilterShape::Compare(op),
{
    (binary(op, col, ph), Ghost(FilterShape::Compare(op)))
}

/// `col IS NULL`, with its form.
fn shaped_is_null(col: Expr) -> (r: (Expr, Ghost<FilterShape>))
    ensures
        r.1@ == FilterShape::IsNull,
{
    (is_null(col), Ghost(FilterShape::IsNull))
}

/// `col IS NOT NULL`, with its form.
fn shaped_is_not_null(col: Expr) -> (r: (Expr, Ghost<FilterShape>))
    ensures
        r.1@ == FilterShape::IsNotNull,
{
    (is_not_null(col), Ghost(FilterShape::IsNotNull))
}

/// `col [NOT] BETWEEN low AND high`, with its form.
fn shaped_between(col: Expr, low: Expr, high: Expr, negated: bool) -> (r: (Expr, Ghost<FilterShape>))
    ensures
        r.1@ == FilterShape::Between(negated),
{
    (between(col, low, high, negated), Ghost(FilterShape::Between(negated)))
}

/// `col [NOT] IN (list)`, with its form.
fn shaped_in_list(col: Expr, list: Vec<Expr>, negated: bool) -> (r: (Expr, Ghost<FilterShape>))
    ensures
        r.1@ == FilterShape::InList(negated, list@.len()),
{
    let ghost n = list@.len();
    (in_list(col, list, negated), Ghost(FilterShape::InList(negated, n)))
}

/// `col [NOT] LIKE ph` with the escape where the database needs it, with
/// its form.
fn shaped_like(negated: bool, col: Expr, ph: Expr, db: Database) -> (r: (Expr, Ghost<FilterShape>))
    ensures
        r.1@ == FilterShape::Like(negated),
{
    (like_escaped_for(negated, col, ph, db), Ghost(FilterShape::Like(negated)))
}

/// `col [NOT] LIKE ph` without an escape, with its form.
fn shaped_unsafe_like(negated: bool, col: Expr, ph: Expr) -> (r: (Expr, Ghost<FilterShape>))
    ensures
        r.1@ == FilterShape::UnsafeLike(negated),
{
    (like_plain(negated, col, ph), Ghost(FilterShape::UnsafeLike(negated)))
}

/// `col [NOT] ILIKE ph ESCAPE '\'`, with its form.
fn shaped_ilike(negated: bool, col: Expr, ph: Expr) -> (r: (Expr, Ghost<FilterShape>))
    ensures
        r.1@ == FilterShape::ILike(negated),
{
    (ilike_escaped(negated, col, ph, string_literal("\\")), Ghost(FilterShape::ILike(negated)))
}

/// `LOWER(col) LIKE ph`, with its form.
fn shaped_lower_like(col: Expr, ph: Expr, db: Database) -> (r: (Expr, Ghost<FilterShape>))
    ensures
        r.1@ == FilterShape::LowerLike,
{
    (like_escaped_for(false, function_call("LOWER", col), ph, db), Ghost(FilterShape::LowerLike))
}

/// `LIKE` with the backslash escape, except for MySQL, which needs none.
fn like_escaped_for(negated: bool, expr: Expr, pattern: Expr, db: Database) -> Expr {
    if db == Database::MySql {
        like_plain(negated, expr, pattern)
    } else {
        like_escaped(negated, expr, pattern, string_literal("\\"))
    }
}

/// A copy of a condition (`Expr`'s `Clone`).
#[verifier::external_body]
fn clone_expr(e: &Expr) -> Expr {
    e.clone()
}

/// The comparison a cursor makes on a field: `>` after the row of an
/// ascending field or before the row of a descending one, `<` otherwise.
pub open spec fn cursor_op_spec(direction: CursorDirection, asc: bool) -> BinOp {
    if (direction == CursorDirection::After) == asc {
        BinOp::Gt
    } else {
        BinOp::Lt
    }
}

/// Whether, in a sort ascending (`asc`) or descending, value `x` comes
/// before value `y`.
pub open spec fn sorts_before(asc: bool, x: int, y: int) -> bool {
    if asc { x < y } else { x > y }
}

/// The keyset condition moves past the cursor's row: reading forwards
/// (`After`) it keeps, on a field, exactly the values that sort after the
/// cursor's value, and reading backwards (`Before`) exactly those that sort
/// before it; the cursor's own value is never kept.
pub proof fn law_cursor_moves_past_the_row(direction: CursorDirection, asc: bool, a: int, b: int)
    ensures
        sql_comparison_holds(cursor_op_spec(direction, asc), a, b) == (if direction == CursorDirection::After {
            sorts_before(asc, b, a)
        } else {
            sorts_before(asc, a, b)
        }),
        !sql_comparison_holds(cursor_op_spec(direction, asc), b, b),
{
}

/// The comparison a cursor makes on a field: past the row in the sort
/// order, in the cursor's direction.
fn cursor_op(direction: CursorDirection, asc: bool) -> (r: BinOp)
    ensures
        r == cursor_op_spec(direction, asc),
{
    match (direction, asc) {
        (CursorDirection::After, true) => BinOp::Gt,
        (CursorDirection::After, false) => BinOp::Lt,
        (CursorDirection::Before, true) => BinOp::Lt,
        (CursorDirection::Before, false) => BinOp::Gt,
    }
}

/// The cursor condition from sort field `i` on: `f_i op v_i`, and for a
/// field that others follow, `f_i op v_i OR (f_i = v_i AND <the rest>)`.
fn cursor_condition(
    sorts: &[crate::sort::Sort],
    values: &[FilterValue],
    direction: CursorDirection,
    i: usize,
    binds: &mut Vec<FilterValue>,
    generator: &mut PlaceholderGen,
    db: Database,
) -> (r: Result<(Expr, Ghost<KeyShape>), BuildError>)
    requires
        i < values@.len(),
        sorts@.len() == values@.len(),
        old(generator).next <= 256,
        old(generator).question_mark == (db is MySql),
    ensures
        final(generator).next <= 256,
        final(generator).question_mark == old(generator).question_mark,
        numbered_as(
            *old(generator),
            *final(generator),
            cursor_chain(values_view(values@), i as int, db is MySql).len() as int,
            r is Ok,
        ),
        r is Ok ==> values_view(final(binds)@) == values_view(old(binds)@) + cursor_chain(
            values_view(values@),
            i as int,
            db is MySql,
        ),
        r is Err ==> r->Err_0 is TooManyPlaceholders,
        r matches Ok((_, shape)) ==> shape@ == keyset_shape(ascending(sorts@), direction, i as nat),
    decreases values@.len() - i,
{
    let ghost vs = values_view(values@);
    proof {
        if i < vs.len() - 1 {
            assert(cursor_chain(vs, i as int, db is MySql) == seq![vs[i as int]] + cursor_chain(vs, i + 1, db is MySql)
                + (if db is MySql { seq![vs[i as int]] } else { Seq::empty() }));
        }
    }
    let ghost before = values_view(binds@);
    let sort = &sorts[i];
    let value = match bind(&values[i], binds, generator) {
        Ok(e) => e,
        Err(e) => return Err(e),
    };
    let op = cursor_op(direction, sort.is_asc());
    let field = sort.field_name().as_str();
    assert(ascending(sorts@)[i as int] == (sorts@[i as int]@.direction == SortDirection::Asc));
    if i == values.len() - 1 {
        assert(before.push(vs[i as int]) =~= before + seq![vs[i as int]]);
        return Ok(key_past(op, i, field, value));
    }
    let ghost middle = values_view(binds@);
    let (rest, rest_shape) = match cursor_condition(sorts, values, direction, i + 1, binds, generator, db) {
        Ok(e) => e,
        Err(e) => return Err(e),
    };
    let wrapped = if i + 1 == values.len() - 1 { rest } else { nested(rest) };
    let ghost after_rest = values_view(binds@);
    let eq_value = if db == Database::MySql {
        match bind(&values[i], binds, generator) {
            Ok(e) => e,
            Err(e) => return Err(e),
        }
    } else {
        clone_expr(&value)
    };
    proof {
        let tail = if db is MySql { seq![vs[i as int]] } else { Seq::<FilterValueView>::empty() };
        assert(values_view(binds@) =~= after_rest + tail);
        assert(before + (seq![vs[i as int]] + cursor_chain(vs, i + 1, db is MySql) + tail) =~= before.push(vs[i as int])
            + cursor_chain(vs, i + 1, db is MySql) + tail);
    }
    let op2 = cursor_op(direction, sort.is_asc());
    let left = key_past(op2, i, field, value);
    let equal = key_equal(i, field, eq_value);
    let (tie, tie_shape) = key_and(equal, (wrapped, rest_shape));
    Ok(key_or(left, (nested(tie), tie_shape)))
}

/// The shape of a keyset condition: field `i` compared past the cursor's
/// value with `op`, field `i` equal to it, or two joined by `OR` / `AND`.
pub enum KeyShape {
    Past(nat, BinOp),
    Equal(nat),
    Or(Box<KeyShape>, Box<KeyShape>),
    And(Box<KeyShape>, Box<KeyShape>),
}

/// Whether each sort entry is ascending.
pub open spec fn ascending(sorts: Seq<crate::sort::Sort>) -> Seq<bool> {
    sorts.map_values(|s: crate::sort::Sort| s@.direction == SortDirection::Asc)
}

/// The keyset condition from field `i` on: past on field `i`, or, when
/// fields follow, equal on field `i` and the condition from `i + 1` on.
pub open spec fn keyset_shape(asc: Seq<bool>, direction: CursorDirection, i: nat) -> KeyShape
    decreases asc.len() - i,
{
    if i + 1 >= asc.len() {
        KeyShape::Past(i, cursor_op_spec(direction, asc[i as int]))
    } else {
        KeyShape::Or(
            Box::new(KeyShape::Past(i, cursor_op_spec(direction, asc[i as int]))),
            Box::new(KeyShape::And(Box::new(KeyShape::Equal(i)), Box::new(keyset_shape(asc, direction, i + 1)))),
        )
    }
}

/// Whether a keyset condition of shape `k` holds of a row whose sort
/// fields hold `row(j)`, for a cursor holding `cur(j)`.
pub open spec fn key_holds(k: KeyShape, row: spec_fn(nat) -> int, cur: spec_fn(nat) -> int) -> bool
    decreases k,
{
    match k {
        KeyShape::Past(j, op) => sql_comparison_holds(op, row(j), cur(j)),
        KeyShape::Equal(j) => row(j) == cur(j),
        KeyShape::Or(l, r) => key_holds(*l, row, cur) || key_holds(*r, row, cur),
        KeyShape::And(l, r) => key_holds(*l, row, cur) && key_holds(*r, row, cur),
    }
}

/// `field op value` for sort field `i`, with its shape.
fn key_past(op: BinOp, i: usize, field: &str, value: Expr) -> (r: (Expr, Ghost<KeyShape>))
    ensures
        r.1@ == KeyShape::Past(i as nat, op),
{
    (binary(op, column(field), value), Ghost(KeyShape::Past(i as nat, op)))
}

/// `field = value` for sort field `i`, with its shape.
fn key_equal(i: usize, field: &str, value: Expr) -> (r: (Expr, Ghost<KeyShape>))
    ensures
        r.1@ == KeyShape::Equal(i as nat),
{
    (binary(BinOp::Eq, column(field), value), Ghost(KeyShape::Equal(i as nat)))
}

/// `left OR right`, with its shape.
fn key_or(left: (Expr, Ghost<KeyShape>), right: (Expr, Ghost<KeyShape>)) -> (r: (Expr, Ghost<KeyShape>))
    ensures
        r.1@ == KeyShape::Or(Box::new(left.1@), Box::new(right.1@)),
{
    (binary(BinOp::Or, left.0, right.0), Ghost(KeyShape::Or(Box::new(left.1@), Box::new(right.1@))))
}

/// `left AND right`, with its shape.
fn key_and(left: (Expr, Ghost<KeyShape>), right: (Expr, Ghost<KeyShape>)) -> (r: (Expr, Ghost<KeyShape>))
    ensures
        r.1@ == KeyShape::And(Box::new(left.1@), Box::new(right.1@)),
{
    (binary(BinOp::And, left.0, right.0), Ghost(KeyShape::And(Box::new(left.1@), Box::new(right.1@))))
}

/// Whether a row sorts past the cursor from field `i` on, lexicographically
/// in the sort order and in the cursor's direction: at the first field
/// (from `i`) where the row and the cursor differ, the row's value sorts
/// after the cursor's (`After`) or before it (`Before`).
pub open spec fn lex_past(asc: Seq<bool>, direction: CursorDirection, row: spec_fn(nat) -> int, cur: spec_fn(nat) -> int, i: nat) -> bool {
    exists|j: nat|
        i <= j < asc.len() && (forall|k: nat| i <= k < j ==> #[trigger] row(k) == cur(k)) && #[trigger] past_on(
            asc,
            direction,
            row,
            cur,
            j,
        )
}

/// The keyset condition keeps exactly the rows that sort past the cursor:
/// for every row and cursor (their values on the sort fields), the
/// condition from field `i` on holds exactly when, at the first sort field
/// where the row and the cursor differ, the row's value sorts after the
/// cursor's (reading forwards) or before it (reading backwards). So the
/// next page starts right after the cursor's row, skipping and repeating
/// none.
pub proof fn law_keyset_selects_rows_past_the_cursor(
    asc: Seq<bool>,
    direction: CursorDirection,
    row: spec_fn(nat) -> int,
    cur: spec_fn(nat) -> int,
    i: nat,
)
    requires
        i < asc.len(),
    ensures
        key_holds(keyset_shape(asc, direction, i), row, cur) == lex_past(asc, direction, row, cur, i),
    decreases asc.len() - i,
{
    law_cursor_moves_past_the_row(direction, asc[i as int], row(i), cur(i));
    let p = past_on(asc, direction, row, cur, i);
    assert(sql_comparison_holds(cursor_op_spec(direction, asc[i as int]), row(i), cur(i)) == p);
    if i + 1 >= asc.len() {
        assert(key_holds(keyset_shape(asc, direction, i), row, cur) == p);
        if p {
            assert(forall|k: nat| i <= k < i ==> #[trigger] row(k) == cur(k));
            assert(past_on(asc, direction, row, cur, i));
        }
        if lex_past(asc, direction, row, cur, i) {
            let j = choose|j: nat|
                i <= j < asc.len() && (forall|k: nat| i <= k < j ==> #[trigger] row(k) == cur(k)) && #[trigger] past_on(
                    asc,
                    direction,
                    row,
                    cur,
                    j,
                );
            assert(j == i);
        }
    } else {
        law_keyset_selects_rows_past_the_cursor(asc, direction, row, cur, i + 1);
        let rest = keyset_shape(asc, direction, i + 1);
        let past = KeyShape::Past(i, cursor_op_spec(direction, asc[i as int]));
        let tie = KeyShape::And(Box::new(KeyShape::Equal(i)), Box::new(rest));
        assert(keyset_shape(asc, direction, i) == KeyShape::Or(Box::new(past), Box::new(tie)));
        assert(key_holds(past, row, cur) == p);
        assert(key_holds(KeyShape::Equal(i), row, cur) == (row(i) == cur(i)));
        assert(key_holds(tie, row, cur) == (row(i) == cur(i) && key_holds(rest, row, cur)));
        assert(key_holds(keyset_shape(asc, direction, i), row, cur) == (p || (row(i) == cur(i) && key_holds(
            rest,
            row,
            cur,
        ))));
        if p {
            assert(forall|k: nat| i <= k < i ==> #[trigger] row(k) == cur(k));
            assert(past_on(asc, direction, row, cur, i));
            assert(lex_past(asc, direction, row, cur, i));
        }
        if row(i) == cur(i) && lex_past(asc, direction, row, cur, i + 1) {
            let j = choose|j: nat|
                i + 1 <= j < asc.len() && (forall|k: nat| i + 1 <= k < j ==> #[trigger] row(k) == cur(k))
                    && #[trigger] past_on(asc, direction, row, cur, j);
            assert forall|k: nat| i <= k < j implies #[trigger] row(k) == cur(k) by {
                if k > i {
                    assert(i + 1 <= k < j);
                }
            }
            assert(lex_past(asc, direction, row, cur, i));
        }
        if lex_past(asc, direction, row, cur, i) && !p {
            let j = choose|j: nat|
                i <= j < asc.len() && (forall|k: nat| i <= k < j ==> #[trigger] row(k) == cur(k)) && #[trigger] past_on(
                    asc,
                    direction,
                    row,
                    cur,
                    j,
                );
            assert(j != i);
            assert(row(i) == cur(i));
            assert forall|k: nat| i + 1 <= k < j implies #[trigger] row(k) == cur(k) by {}
            assert(lex_past(asc, direction, row, cur, i + 1));
        }
    }
}

/// Whether the row's value on field `j` sorts past the cursor's.
pub open spec fn past_on(asc: Seq<bool>, direction: CursorDirection, row: spec_fn(nat) -> int, cur: spec_fn(nat) -> int, j: nat) -> bool {
    if direction == CursorDirection::After {
        sorts_before(asc[j as int], cur(j), row(j))
    } else {
        sorts_before(asc[j as int], row(j), cur(j))
    }
}

/// `left AND right`, each side in parentheses when it holds an `OR`.
/// The flag of the result says it holds no `OR` outside parentheses.
fn grouped_and(left: (Expr, bool), right: (Expr, bool)) -> (r: (Expr, bool))
    ensures
        !r.1,
{
    let l = if left.1 { nested(left.0) } else { left.0 };
    let r = if right.1 { nested(right.0) } else { right.0 };
    (binary(BinOp::And, l, r), false)
}

/// An error for a refused filter sequence is the error for the whole.
proof fn lemma_filters_err_extends(fs: Seq<Filter>, db: Database, k: int)
    requires
        0 <= k <= fs.len(),
        filters_binds(fs.subrange(0, k), db) is Err,
    ensures
        filters_binds(fs, db) == filters_binds(fs.subrange(0, k), db),
    decreases fs.len() - k,
{
    if k < fs.len() {
        assert(fs.subrange(0, k + 1).drop_last() =~= fs.subrange(0, k));
        lemma_filters_err_extends(fs, db, k + 1);
    } else {
        assert(fs.subrange(0, k) =~= fs);
    }
}

/// The values a prefix of an accepted filter sequence binds are no more
/// than those of the whole.
proof fn lemma_filters_prefix_len(fs: Seq<Filter>, db: Database, k: int)
    requires
        0 <= k <= fs.len(),
        filters_binds(fs, db) is Ok,
    ensures
        filters_binds(fs.subrange(0, k), db) matches Ok(bk) && bk.len() <= filters_binds(fs, db)->Ok_0.len(),
    decreases fs.len() - k,
{
    if k < fs.len() {
        lemma_filters_prefix_len(fs, db, k + 1);
        assert(fs.subrange(0, k + 1).drop_last() =~= fs.subrange(0, k));
    } else {
        assert(fs.subrange(0, k) =~= fs);
    }
}

/// The conditions of the filters, joined by `AND`, binding their values.
fn filters_condition(
    filters: &Vec<Filter>,
    binds: &mut Vec<FilterValue>,
    generator: &mut PlaceholderGen,
    db: Database,
) -> (r: Result<Option<Expr>, BuildError>)
    requires
        old(generator).next <= 256,
        old(generator).question_mark == (db is MySql),
    ensures
        final(generator).next <= 256,
        final(generator).question_mark == old(generator).question_mark,
        match filters_binds(filters@, db) {
            Ok(b) => numbered_as(*old(generator), *final(generator), b.len() as int, r is Ok) && (r is Ok
                ==> values_view(final(binds)@) == values_view(old(binds)@) + b) && (r is Err
                ==> r->Err_0 is TooManyPlaceholders),
            Err(m) => r matches Err(e) && refused_with(e, m),
        },
{
    let ghost before = values_view(binds@);
    let ghost g0 = *generator;
    let mut acc: Option<Expr> = None;
    let mut i: usize = 0;
    assert(filters@.subrange(0, 0) =~= Seq::<Filter>::empty());
    assert(before + Seq::<FilterValueView>::empty() =~= before);
    while i < filters.len()
        invariant
            i <= filters@.len(),
            generator.next <= 256,
            generator.question_mark == (db is MySql),
            generator.question_mark == old(generator).question_mark,
            g0 == *old(generator),
            filters_binds(filters@.subrange(0, i as int), db) matches Ok(b) && values_view(binds@) == before + b
                && numbering_fits(g0.next as int, g0.question_mark, b.len() as int) && generator.next == advanced(
                g0.next as int,
                g0.question_mark,
                b.len() as int,
            ),
        decreases filters@.len() - i,
    {
        let ghost prefix = filters@.subrange(0, i as int);
        let ghost b = filters_binds(prefix, db)->Ok_0;
        proof {
            assert(filters@.subrange(0, i + 1).drop_last() =~= prefix);
            assert(filters@.subrange(0, i + 1).last() == filters@[i as int]);
        }
        let c = match filter_condition(&filters[i], binds, generator, db) {
            Ok((c, _)) => c,
            Err(e) => {
                proof {
                    if filter_binds(filters@[i as int], db) is Err {
                        lemma_filters_err_extends(filters@, db, i + 1);
                    } else if filters_binds(filters@, db) is Ok {
                        lemma_filters_prefix_len(filters@, db, i + 1);
                    }
                }
                return Err(e);
            },
        };
        proof {
            let c = filter_binds(filters@[i as int], db)->Ok_0;
            assert(before + b + c =~= before + (b + c));
        }
        acc = match acc {
            None => Some(c),
            Some(a) => Some(binary(BinOp::And, a, c)),
        };
        i = i + 1;
    }
    assert(filters@.subrange(0, filters@.len() as int) =~= filters@);
    Ok(acc)
}

/// The search condition (`field LIKE pattern`, or `LOWER(field) LIKE
/// LOWER(pattern)` when case-insensitive, for each field, joined by `OR`),
/// binding the pattern once per field; with whether it holds an `OR`.
fn search_condition(search: &SearchParams, binds: &mut Vec<FilterValue>, generator: &mut PlaceholderGen, db: Database) -> (r: Result<
    Option<(Expr, bool)>,
    BuildError,
>)
    requires
        old(generator).next <= 256,
        old(generator).question_mark == (db is MySql),
    ensures
        final(generator).next <= 256,
        final(generator).question_mark == old(generator).question_mark,
        numbered_as(*old(generator), *final(generator), search_binds(Some(*search)).len() as int, r is Ok),
        r is Ok ==> values_view(final(binds)@) == values_view(old(binds)@) + search_binds(Some(*search)),
        r is Err ==> r->Err_0 is TooManyPlaceholders,
{
    let ghost before = values_view(binds@);
    let ghost g0 = *generator;
    if search.fields.len() == 0 || search.query.as_str().unicode_len() == 0 {
        assert(before + Seq::<FilterValueView>::empty() =~= before);
        return Ok(None);
    }
    let pattern = if search.exact_match {
        search.query.clone()
    } else {
        let mut p = string_of("%");
        p.append(search.query.as_str());
        p.append("%");
        p
    };
    let ghost pv = FilterValueView::String(search_pattern(*search));
    assert(search_binds(Some(*search)).len() == search.fields@.len());
    let mut acc: Option<Expr> = None;
    let mut i: usize = 0;
    while i < search.fields.len()
        invariant
            i <= search.fields@.len(),
            pattern@ == search_pattern(*search),
            pv == FilterValueView::String(search_pattern(*search)),
            generator.next <= 256,
            generator.question_mark == (db is MySql),
            generator.question_mark == old(generator).question_mark,
            values_view(binds@) == before + Seq::new(i as nat, |j: int| pv),
            i > 0 ==> acc is Some,
            g0 == *old(generator),
            numbering_fits(g0.next as int, g0.question_mark, i as int),
            generator.next == advanced(g0.next as int, g0.question_mark, i as int),
            search_binds(Some(*search)).len() == search.fields@.len(),
        decreases search.fields@.len() - i,
    {
        let value = FilterValue::String(pattern.clone());
        let ph = match bind(&value, binds, generator) {
            Ok(e) => e,
            Err(e) => return Err(e),
        };
        proof {
            assert(Seq::new((i + 1) as nat, |j: int| pv) =~= Seq::new(i as nat, |j: int| pv).push(pv));
        }
        let field = search.fields[i].as_str();
        let e = if search.case_sensitive {
            like_escaped_for(false, column(field), ph, db)
        } else {
            like_escaped_for(false, function_call("LOWER", column(field)), function_call("LOWER", ph), db)
        };
        acc = match acc {
            None => Some(e),
            Some(a) => Some(binary(BinOp::Or, a, e)),
        };
        i = i + 1;
    }
    assert(search_binds(Some(*search)) =~= Seq::new(search.fields@.len(), |j: int| pv));
    match acc {
        Some(e) => Ok(Some((e, search.fields.len() > 1))),
        None => Ok(None),
    }
}

/// The cursor condition of a cursor with values, after the checks that
/// `cursor_binds` states; with whether it holds an `OR`.
fn cursor_part(params: &Params, binds: &mut Vec<FilterValue>, generator: &mut PlaceholderGen, db: Database) -> (r: Result<
    Option<(Expr, bool)>,
    BuildError,
>)
    requires
        old(generator).next <= 256,
        old(generator).question_mark == (db is MySql),
    ensures
        final(generator).next <= 256,
        final(generator).question_mark == old(generator).question_mark,
        match cursor_binds(*params, db) {
            Ok(b) => numbered_as(*old(generator), *final(generator), b.len() as int, r is Ok) && (r is Ok
                ==> values_view(final(binds)@) == values_view(old(binds)@) + b) && (r is Err
                ==> r->Err_0 is TooManyPlaceholders),
            Err(m) => r matches Err(e) && refused_with(e, m),
        },
{
    let ghost before = values_view(binds@);
    let cursor = match &params.pagination {
        Some(Pagination::Cursor(c)) => c,
        _ => {
            assert(before + Seq::<FilterValueView>::empty() =~= before);
            return Ok(None);
        },
    };
    if cursor.is_empty() {
        assert(before + Seq::<FilterValueView>::empty() =~= before);
        return Ok(None);
    }
    if cursor.has_error() {
        let mut m = string_of("Cursor decode failed: ");
        match cursor.error() {
            Some(t) => m.append(t),
            None => m.append("unknown error"),
        }
        return Err(invalid(m));
    }
    let sort_by = match &params.sort_by {
        Some(sb) => sb,
        None => return Err(
            invalid(string_of("Cursor pagination requires ORDER BY clause to be defined in sort_by")),
        ),
    };
    let sorts = sort_by.sorts();
    proof {
        assert(sorts@.len() == sorts@.map_values(|s: crate::sort::Sort| s@).len());
    }
    if sorts.len() != cursor.len() {
        let mut m = string_of("Number of cursor values (");
        push_decimal(&mut m, cursor.len());
        m.append(") must match number of sort fields (");
        push_decimal(&mut m, sorts.len());
        m.append(")");
        return Err(invalid(m));
    }
    let direction = match cursor.direction {
        Some(d) => d,
        None => return Err(invalid(string_of("Cursor pagination is missing direction"))),
    };
    let values = cursor.values();
    let e = match cursor_condition(sorts, values, direction, 0, binds, generator, db) {
        Ok((e, _)) => e,
        Err(e) => return Err(e),
    };
    Ok(Some((e, cursor.len() > 1)))
}

/// The dynamic conditions of one `SELECT`: the filters joined by `AND`,
/// the search, the cursor condition, joined by `AND` (each in parentheses
/// when it holds an `OR`); with whether it holds an `OR`. The values are
/// bound as `select_binds` says.
fn dynamic_condition(
    params: &Params,
    binds: &mut Vec<FilterValue>,
    generator: &mut PlaceholderGen,
    db: Database,
) -> (r: Result<Option<(Expr, bool)>, BuildError>)
    requires
        old(generator).next <= 256,
        old(generator).question_mark == (db is MySql),
    ensures
        final(generator).next <= 256,
        final(generator).question_mark == old(generator).question_mark,
        match select_binds(*params, db) {
            Ok(b) => numbered_as(*old(generator), *final(generator), b.len() as int, r is Ok) && (r is Ok
                ==> values_view(final(binds)@) == values_view(old(binds)@) + b) && (r is Err
                ==> r->Err_0 is TooManyPlaceholders),
            Err(m) => r matches Err(e) && refused_with(e, m),
        },
{
    let ghost before = values_view(binds@);
    let ghost g0 = *generator;
    let ghost fb = filters_part(*params, db);
    let ghost sb = search_binds(params.search);
    proof {
        if select_binds(*params, db) is Ok {
            let b = select_binds(*params, db)->Ok_0;
            assert(b.len() == fb.len() + sb.len() + cursor_binds(*params, db)->Ok_0.len());
        }
    }
    let filters = match &params.filters {
        Some(fp) => match filters_condition(&fp.filters, binds, generator, db) {
            Ok(f) => f,
            Err(e) => return Err(e),
        },
        None => {
            assert(before + Seq::<FilterValueView>::empty() =~= before);
            None
        },
    };
    let ghost after_filters = values_view(binds@);
    let ghost g1 = *generator;
    assert(g1.next == advanced(g0.next as int, g0.question_mark, fb.len() as int));
    let search = match &params.search {
        Some(sp) => match search_condition(sp, binds, generator, db) {
            Ok(s) => s,
            Err(e) => return Err(e),
        },
        None => {
            assert(after_filters + Seq::<FilterValueView>::empty() =~= after_filters);
            None
        },
    };
    let ghost after_search = values_view(binds@);
    assert(generator.next == advanced(g0.next as int, g0.question_mark, (fb.len() + sb.len()) as int));
    let cursor = match cursor_part(params, binds, generator, db) {
        Ok(c) => c,
        Err(e) => return Err(e),
    };
    proof {
        match select_binds(*params, db) {
            Ok(b) => {
                let fb = filters_part(*params, db);
                let cb = cursor_binds(*params, db)->Ok_0;
                assert(b == fb + search_binds(params.search) + cb);
                assert(values_view(binds@) =~= before + b);
            },
            Err(_) => {},
        }
    }
    let mut dynamic: Option<(Expr, bool)> = match filters {
        Some(f) => Some((f, false)),
        None => None,
    };
    dynamic = match (dynamic, search) {
        (Some(d), Some(s)) => Some(grouped_and(d, s)),
        (None, s) => s,
        (d, None) => d,
    };
    dynamic = match (dynamic, cursor) {
        (Some(d), Some(c)) => Some(grouped_and(d, c)),
        (None, c) => c,
        (d, None) => d,
    };
    Ok(dynamic)
}

/// Adds the dynamic conditions (`dynamic_condition`) to the `WHERE` clause
/// of a `SELECT`, joined to the existing condition by `AND`.
fn process_select(
    select: &mut Select,
    params: &Params,
    binds: &mut Vec<FilterValue>,
    generator: &mut PlaceholderGen,
    db: Database,
) -> (r: Result<(), BuildError>)
    requires
        old(generator).next <= 256,
        old(generator).question_mark == (db is MySql),
    ensures
        final(generator).next <= 256,
        final(generator).question_mark == old(generator).question_mark,
        match select_binds(*params, db) {
            Ok(b) => numbered_as(*old(generator), *final(generator), b.len() as int, r is Ok) && (r is Ok
                ==> values_view(final(binds)@) == values_view(old(binds)@) + b) && (r is Err
                ==> r->Err_0 is TooManyPlaceholders),
            Err(m) => r matches Err(e) && refused_with(e, m),
        },
{
    let dynamic = match dynamic_condition(params, binds, generator, db) {
        Ok(d) => d,
        Err(e) => return Err(e),
    };
    let existing = select_take_selection(select);
    match dynamic {
        None => select_put_selection(select, existing),
        Some((e, has_or)) => {
            let combined = match existing {
                Some(x) => {
                    let e = if has_or { nested(e) } else { e };
                    binary(BinOp::And, x, e)
                },
                None => e,
            };
            select_put_selection(select, Some(combined));
        },
    }
    Ok(())
}

/// `b` repeated `k` times.
pub open spec fn repeat(b: Seq<FilterValueView>, k: nat) -> Seq<FilterValueView>
    decreases k,
{
    if k == 0 { Seq::empty() } else { repeat(b, (k - 1) as nat) + b }
}

/// Repeating `k1` times and then `k2` times is repeating `k1 + k2` times.
proof fn lemma_repeat_add(b: Seq<FilterValueView>, k1: nat, k2: nat)
    ensures
        repeat(b, k1) + repeat(b, k2) == repeat(b, k1 + k2),
    decreases k2,
{
    if k2 == 0 {
        assert(repeat(b, k1) + repeat(b, 0) =~= repeat(b, k1));
    } else {
        lemma_repeat_add(b, k1, (k2 - 1) as nat);
        assert(repeat(b, k1) + (repeat(b, (k2 - 1) as nat) + b) =~= (repeat(b, k1) + repeat(b, (k2 - 1) as nat)) + b);
    }
}

/// What processing a query body did to the bound values: each `SELECT` in
/// it (`k` of them) bound the values `select_binds` gives; a refusal stops.
pub open spec fn body_processed(params: Params, db: Database, before: Seq<FilterValueView>, after: Seq<FilterValueView>, r: Result<(), BuildError>) -> bool {
    match select_binds(params, db) {
        Ok(b) => (r is Ok ==> exists|k: nat| after == before + repeat(b, k)) && (r is Err ==> r->Err_0
            is TooManyPlaceholders),
        Err(m) => (r is Ok ==> after == before) && (r matches Err(e) ==> refused_with(e, m)),
    }
}

/// Adds the dynamic conditions to every `SELECT` of a query body: both
/// sides of a set operation, the body of a parenthesized query. Nesting
/// deeper than `depth` is left as it is (`sqlparser` refuses to parse
/// nesting deeper than its recursion limit, 50).
fn process_set_expr(
    e: SetExpr,
    params: &Params,
    binds: &mut Vec<FilterValue>,
    generator: &mut PlaceholderGen,
    db: Database,
    depth: usize,
) -> (r: (SetExpr, Result<(), BuildError>))
    requires
        old(generator).next <= 256,
        old(generator).question_mark == (db is MySql),
    ensures
        final(generator).next <= 256,
        final(generator).question_mark == old(generator).question_mark,
        body_processed(*params, db, values_view(old(binds)@), values_view(final(binds)@), r.1),
        r.1 is Ok ==> final(generator).next == advanced(
            old(generator).next as int,
            old(generator).question_mark,
            values_view(final(binds)@).len() - values_view(old(binds)@).len(),
        ),
        r.1 is Err && select_binds(*params, db) is Ok ==> !old(generator).question_mark && select_binds(
            *params,
            db,
        )->Ok_0.len() > 0,
    decreases depth,
{
    let ghost before = values_view(binds@);
    if depth == 0 {
        proof {
            if select_binds(*params, db) is Ok {
                assert(before == before + repeat(select_binds(*params, db)->Ok_0, 0));
            }
        }
        return (e, Ok(()));
    }
    match split_set_expr(e) {
        SetParts::Select(mut s) => {
            let r = process_select(&mut s, params, binds, generator, db);
            proof {
                if select_binds(*params, db) is Ok {
                    let b = select_binds(*params, db)->Ok_0;
                    assert(repeat(b, 1) =~= b) by {
                        assert(repeat(b, 0) =~= Seq::<FilterValueView>::empty());
                    }
                }
            }
            (join_set_expr(SetParts::Select(s)), r)
        },
        SetParts::Operation(left, right, op, quantifier) => {
            let (l, r1) = process_set_expr(left, params, binds, generator, db, depth - 1);
            if r1.is_err() {
                return (join_set_expr(SetParts::Operation(l, right, op, quantifier)), r1);
            }
            let ghost middle = values_view(binds@);
            let (rr, r2) = process_set_expr(right, params, binds, generator, db, depth - 1);
            proof {
                if select_binds(*params, db) is Ok && r2 is Ok {
                    let b = select_binds(*params, db)->Ok_0;
                    let k1 = choose|k: nat| middle == before + repeat(b, k);
                    let k2 = choose|k: nat| values_view(binds@) == middle + repeat(b, k);
                    lemma_repeat_add(b, k1, k2);
                    assert(values_view(binds@) =~= before + repeat(b, k1 + k2));
                }
            }
            (join_set_expr(SetParts::Operation(l, rr, op, quantifier)), r2)
        },
        SetParts::Query(mut q) => {
            let body = take_body(&mut q);
            let (b2, r) = process_set_expr(body, params, binds, generator, db, depth - 1);
            put_body(&mut q, b2);
            (join_set_expr(SetParts::Query(q)), r)
        },
        SetParts::Other(o) => {
            proof {
                if select_binds(*params, db) is Ok {
                    assert(before == before + repeat(select_binds(*params, db)->Ok_0, 0));
                }
            }
            (o, Ok(()))
        },
    }
}

/// The number the `$` placeholders of the dynamic parameters count on
/// from (the first is one past it): the largest placeholder number the
/// query keeps, or else the number of values bound already, modulo 256.
pub open spec fn numbering_start(max_existing_placeholder: nat, bound: nat) -> nat {
    if max_existing_placeholder > 0 {
        max_existing_placeholder % 256
    } else {
        bound % 256
    }
}

/// The placeholders of the dynamic parameters (see `numbering_start`).
fn start_numbering(max_existing_placeholder: usize, bound: usize, db: Database) -> (r: PlaceholderGen)
    ensures
        r.question_mark == (db is MySql),
        r.next == numbering_start(max_existing_placeholder as nat, bound as nat) + 1,
        r.next <= 256,
{
    let start: u8 = if max_existing_placeholder > 0 {
        (max_existing_placeholder % 256) as u8
    } else {
        (bound % 256) as u8
    };
    PlaceholderGen::new(start, db)
}

/// One entry of the `ORDER BY` that the sorting gives.
pub struct OrderEntry {
    pub field: String,
    pub asc: bool,
    pub nulls_first: Option<bool>,
}

/// Whether the pagination is a cursor moving backwards, which reads the
/// rows in the reverse of the sort order.
pub open spec fn reads_backwards(p: Params) -> bool {
    p.pagination matches Some(Pagination::Cursor(c)) && c.direction == Some(CursorDirection::Before)
}

/// Whether `e` is the `ORDER BY` entry of the sort entry `s`: its field,
/// its direction (reversed when the rows are read backwards), its nulls.
pub open spec fn order_entry_of(e: OrderEntry, s: crate::sort::SortView, backwards: bool) -> bool {
    &&& e.field@ == s.field
    &&& e.asc == ((s.direction == SortDirection::Asc) != backwards)
    &&& e.nulls_first == s.nulls.as_bool_spec()
}

/// The `ORDER BY` entries of the sorting, one per sort entry, in order.
fn order_entries(params: &Params) -> (r: Vec<OrderEntry>)
    ensures
        r@.len() == (match params.sort_by {
            Some(sb) => sb.entries().len(),
            None => 0,
        }),
        forall|i: int|
            0 <= i < r@.len() ==> order_entry_of(
                #[trigger] r@[i],
                params.sort_by->0.entries()[i],
                reads_backwards(*params),
            ),
{
    let mut out: Vec<OrderEntry> = Vec::new();
    let sort_by = match &params.sort_by {
        Some(sb) => sb,
        None => return out,
    };
    let invert = match &params.pagination {
        Some(Pagination::Cursor(c)) => match c.direction {
            Some(CursorDirection::Before) => true,
            _ => false,
        },
        _ => false,
    };
    let sorts = sort_by.sorts();
    let ghost es = sort_by.entries();
    assert(sorts@.len() == sorts@.map_values(|s: crate::sort::Sort| s@).len());
    let mut i: usize = 0;
    while i < sorts.len()
        invariant
            i <= sorts@.len(),
            es == sort_by.entries(),
            sorts@.map_values(|s: crate::sort::Sort| s@) == es,
            invert == reads_backwards(*params),
            out@.len() == i,
            forall|j: int| 0 <= j < i ==> order_entry_of(#[trigger] out@[j], es[j], invert),
        decreases sorts@.len() - i,
    {
        let s = &sorts[i];
        assert(s@ == es[i as int]);
        let asc = if invert { !s.is_asc() } else { s.is_asc() };
        out.push(OrderEntry { field: s.field_name().clone(), asc, nulls_first: s.nulls_as_bool() });
        i = i + 1;
    }
    out
}

/// The `LIMIT` number: the limit, plus the extra row that slice and
/// cursor pages read to see whether another page follows.
fn limit_text(params: &Params) -> (r: Option<String>)
    requires
        limit_fits(*params),
    ensures
        match params.limit {
            Some(l) => r matches Some(t) && t@ == decimal((l.0 + params.plus_one_spec()) as nat),
            None => r is None,
        },
{
    match &params.limit {
        Some(l) => {
            let mut text = String::new();
            push_decimal_u64(&mut text, (l.0 + params.limit_plus_one()) as u64);
            Some(text)
        },
        None => None,
    }
}

/// Slice and cursor pages read one row more than they show, the row that
/// tells whether a next page exists; serial pages, and queries without
/// pagination, read exactly the `LIMIT`.
pub proof fn law_limit_reads_look_ahead_row(params: Params)
    ensures
        params.plus_one_spec() == (if params.pagination is Some && (params.pagination->0 is Slice
            || params.pagination->0 is Cursor) {
            1u32
        } else {
            0u32
        }),
{
}

/// The `OFFSET` number.
fn offset_text(params: &Params) -> (r: Option<String>)
    ensures
        match params.offset {
            Some(o) => r matches Some(t) && t@ == decimal(o.0 as nat),
            None => r is None,
        },
{
    match &params.offset {
        Some(o) => {
            let mut text = String::new();
            push_decimal_u64(&mut text, o.0 as u64);
            Some(text)
        },
        None => None,
    }
}

/// Whether the limit, plus the extra row that slice and cursor pages read
/// to see whether another page follows, fits in `u32`.
pub open spec fn limit_fits(p: Params) -> bool {
    p.limit matches Some(l) ==> l.0 + p.plus_one_spec() <= u32::MAX
}

/// Sets the `ORDER BY` of `query` to the entries of the sorting
/// (`order_entries`), when there are any, and its `LIMIT` and `OFFSET` to
/// `limit_text` and `offset_text`, when there is either.
fn place_order_and_limit(query: &mut Query, params: &Params) -> (placed: Ghost<
    (Option<Seq<OrderEntry>>, Option<(Option<Seq<char>>, Option<Seq<char>>)>),
>)
    requires
        limit_fits(*params),
    ensures
        sorted_by(placed@.0, *params),
        paged_by(placed@.1, *params),
{
    let entries = order_entries(params);
    let mut placed: Ghost<Option<Seq<OrderEntry>>> = Ghost(None);
    if entries.len() > 0 {
        let mut exprs: Vec<OrderByExpr> = Vec::new();
        let ghost mut handed: Seq<OrderEntry> = Seq::empty();
        let mut i: usize = 0;
        while i < entries.len()
            invariant
                i <= entries@.len(),
                exprs@.len() == i,
                handed == entries@.subrange(0, i as int),
            decreases entries@.len() - i,
        {
            let e = &entries[i];
            exprs.push(order_expr(e.field.as_str(), e.asc, e.nulls_first));
            proof {
                assert(entries@.subrange(0, i + 1) =~= handed.push(entries@[i as int]));
                handed = handed.push(entries@[i as int]);
            }
            i = i + 1;
        }
        assert(handed =~= entries@);
        put_order_by(query, Some(OrderByClause { kind: OrderKind::Expressions(exprs), interpolate: None }));
        placed = Ghost(Some(handed));
    }
    let ghost mut limit_v: Option<Seq<char>> = None;
    let limit = match limit_text(params) {
        Some(t) => {
            proof { limit_v = Some(t@); }
            Some(number(t.as_str()))
        },
        None => None,
    };
    let ghost mut offset_v: Option<Seq<char>> = None;
    let offset = match offset_text(params) {
        Some(t) => {
            proof { offset_v = Some(t@); }
            Some(number(t.as_str()))
        },
        None => None,
    };
    let ghost mut paged: Option<(Option<Seq<char>>, Option<Seq<char>>)> = None;
    if limit.is_some() || offset.is_some() {
        set_limit_offset(query, limit, offset);
        proof { paged = Some((limit_v, offset_v)); }
    }
    Ghost((placed@, paged))
}

/// The `LIMIT` set is the limit, one more for slice and cursor pages (the
/// row that tells whether a next page exists); the `OFFSET` set is the
/// offset; and a query the parameters give neither keeps its own.
pub proof fn law_limit_and_offset_placed(params: Params, paged: Option<(Option<Seq<char>>, Option<Seq<char>>)>)
    requires
        paged_by(paged, params),
    ensures
        params.limit matches Some(l) ==> (paged matches Some((Some(t), _)) && t == decimal(
            (l.0 + (if params.pagination is Some && (params.pagination->0 is Slice || params.pagination->0 is Cursor) {
                1int
            } else {
                0int
            })) as nat,
        )),
        params.offset matches Some(o) ==> (paged matches Some((_, Some(t))) && t == decimal(o.0 as nat)),
        (params.limit is None && params.offset is None) ==> paged is None,
{
    law_limit_reads_look_ahead_row(params);
}

/// Whether `paged` is the `LIMIT` and `OFFSET` that the parameters give:
/// none when they have neither (the query keeps its own), else the `LIMIT`
/// number (the limit, plus the look-ahead row of slice and cursor pages)
/// and the `OFFSET` number, each when set.
pub open spec fn paged_by(paged: Option<(Option<Seq<char>>, Option<Seq<char>>)>, params: Params) -> bool {
    if params.limit is None && params.offset is None {
        paged is None
    } else {
        paged == Some((
            match params.limit {
                Some(l) => Some(decimal((l.0 + params.plus_one_spec()) as nat)),
                None => None,
            },
            match params.offset {
                Some(o) => Some(decimal(o.0 as nat)),
                None => None,
            },
        ))
    }
}

/// Whether `placed` is the `ORDER BY` that the sorting of `params` gives:
/// none when there is no sort entry (the query keeps its own), else one
/// `ORDER BY` entry per sort entry, each the `order_entry_of` it.
pub open spec fn sorted_by(placed: Option<Seq<OrderEntry>>, params: Params) -> bool {
    let n = match params.sort_by {
        Some(sb) => sb.entries().len(),
        None => 0,
    };
    if n == 0 {
        placed is None
    } else {
        placed matches Some(es) && es.len() == n && forall|i: int|
            0 <= i < n ==> order_entry_of(#[trigger] es[i], params.sort_by->0.entries()[i], reads_backwards(params))
    }
}

/// When the sorting has `k >= 1` entries, the `ORDER BY` set is exactly `k`
/// entries, the `i`-th on the `i`-th sort field, ascending exactly when that
/// field sorts ascending (the other way round when a cursor reads the rows
/// backwards), with its null placement; with no sort entry none is set.
pub proof fn law_order_by_follows_sorting(params: Params, placed: Option<Seq<OrderEntry>>)
    requires
        sorted_by(placed, params),
    ensures
        (params.sort_by is Some && params.sort_by->0.entries().len() >= 1) ==> (placed is Some
            && placed->0.len() == params.sort_by->0.entries().len() && forall|i: int|
            0 <= i < placed->0.len() ==> (#[trigger] placed->0[i]).field@ == params.sort_by->0.entries()[i].field
                && (placed->0[i].asc <==> ((params.sort_by->0.entries()[i].direction == SortDirection::Asc)
                != (params.pagination is Some && params.pagination->0 is Cursor && params.pagination->0->Cursor_0.direction == Some(CursorDirection::Before)))) && placed->0[i].nulls_first
                == params.sort_by->0.entries()[i].nulls.as_bool_spec()),
        (params.sort_by is None || params.sort_by->0.entries().len() == 0) ==> placed is None,
{
    assert(reads_backwards(params) == (params.pagination is Some && params.pagination->0 is Cursor && params.pagination->0->Cursor_0.direction == Some(CursorDirection::Before)));
    if params.sort_by is Some && params.sort_by->0.entries().len() >= 1 {
        let es = placed->0;
        let ents = params.sort_by->0.entries();
        assert forall|i: int| 0 <= i < es.len() implies (#[trigger] es[i]).field@ == ents[i].field && (es[i].asc
            <==> ((ents[i].direction == SortDirection::Asc) != reads_backwards(params)))
            && es[i].nulls_first == ents[i].nulls.as_bool_spec() by {
            assert(order_entry_of(es[i], ents[i], reads_backwards(params)));
        }
    }
}

/// Applies the dynamic parameters to a query whose body is one `SELECT`
/// (a query `parse_select` finds to be a `SELECT`): its conditions, binding
/// the values after the existing ones (numbered as `process_query` says),
/// then the sorting, `LIMIT` and `OFFSET` as `process_query` places them.
/// Were the body anything else, it is left as it is and the values are
/// still bound as for one `SELECT`.
pub fn process_select_query(
    query: &mut Query,
    params: &Params,
    binds: &mut Vec<FilterValue>,
    max_existing_placeholder: usize,
    db: Database,
) -> (r: Result<(), BuildError>)
    requires
        limit_fits(*params),
    ensures
        match select_binds(*params, db) {
            Ok(b) => (r is Ok <==> numbering_fits(
                (numbering_start(max_existing_placeholder as nat, old(binds).len() as nat) + 1) as int,
                db is MySql,
                b.len() as int,
            )) && (r is Ok ==> values_view(final(binds)@) == values_view(old(binds)@) + b) && (r is Err
                ==> r->Err_0 is TooManyPlaceholders),
            Err(m) => r matches Err(e) && refused_with(e, m),
        },
{
    let mut generator = start_numbering(max_existing_placeholder, binds.len(), db);
    let body = take_body(query);
    let (body, r) = match split_set_expr(body) {
        SetParts::Select(mut s) => {
            let r = process_select(&mut s, params, binds, &mut generator, db);
            (join_set_expr(SetParts::Select(s)), r)
        },
        other => {
            let r = match dynamic_condition(params, binds, &mut generator, db) {
                Ok(_) => Ok(()),
                Err(e) => Err(e),
            };
            (join_set_expr(other), r)
        },
    };
    put_body(query, body);
    if r.is_err() {
        return r;
    }
    place_order_and_limit(query, params);
    Ok(())
}

/// Applies the dynamic parameters to a query: the conditions of every
/// `SELECT` (binding the values after the existing ones, with placeholders
/// numbered from one past `max_existing_placeholder`, or past the values
/// bound so far when it is 0, taken modulo 256),
/// then the sorting as the `ORDER BY` (reversed for a cursor moving
/// backwards, `order_entries`), then `LIMIT` (with the extra row,
/// `limit_text`) and `OFFSET` (`offset_text`). The contract states the
/// values bound and when the numbering runs out; the number of `SELECT`s
/// in the body and the conditions placed in the tree are not visible here.
pub fn process_query(
    query: &mut Query,
    params: &Params,
    binds: &mut Vec<FilterValue>,
    max_existing_placeholder: usize,
    db: Database,
) -> (r: Result<(), BuildError>)
    requires
        limit_fits(*params),
    ensures
        body_processed(*params, db, values_view(old(binds)@), values_view(final(binds)@), r),
        select_binds(*params, db) matches Ok(b) && (db is MySql || b.len() == 0) ==> r is Ok,
        r is Ok && !(db is MySql) ==> numbering_start(max_existing_placeholder as nat, old(binds).len() as nat)
            + values_view(final(binds)@).len() - values_view(old(binds)@).len() < 256,
{
    let mut generator = start_numbering(max_existing_placeholder, binds.len(), db);
    let body = take_body(query);
    let (body, r) = process_set_expr(body, params, binds, &mut generator, db, 50);
    put_body(query, body);
    if r.is_err() {
        return r;
    }
    place_order_and_limit(query, params);
    Ok(())
}

/// The SQL of a query with its dynamic parameters applied, and the values
/// to bind, in placeholder order.
#[derive(Debug)]
pub struct BuiltSql {
    pub sql: String,
    pub bind_values: Vec<FilterValue>,
}

/// The message for SQL that holds no statement.
pub open spec fn no_statement_message(sql: Seq<char>) -> Seq<char> {
    "Failed to parse SQL: `"@ + sql + "`"@
}

/// The largest of a list of numbers, or 0.
pub open spec fn seq_max(s: Seq<nat>) -> nat
    decreases s.len(),
{
    if s.len() == 0 {
        0
    } else if seq_max(s.drop_last()) < s.last() {
        s.last()
    } else {
        seq_max(s.drop_last())
    }
}

/// The largest of a list of numbers, or 0.
fn max_of(v: &Vec<usize>) -> (r: usize)
    ensures
        r == seq_max(nats(v@)),
        forall|i: int| 0 <= i < v@.len() ==> v@[i] <= r,
        v@.len() == 0 ==> r == 0,
        v@.len() > 0 ==> exists|i: int| 0 <= i < v@.len() && v@[i] == r,
{
    let mut m: usize = 0;
    let mut i: usize = 0;
    while i < v.len()
        invariant
            i <= v@.len(),
            forall|j: int| 0 <= j < i ==> v@[j] <= m,
            i == 0 ==> m == 0,
            i > 0 ==> exists|j: int| 0 <= j < i && v@[j] == m,
            m == seq_max(nats(v@).subrange(0, i as int)),
        decreases v@.len() - i,
    {
        proof {
            assert(nats(v@).subrange(0, i + 1).drop_last() =~= nats(v@).subrange(0, i as int));
        }
        if v[i] > m {
            m = v[i];
        }
        i = i + 1;
    }
    assert(nats(v@).subrange(0, v@.len() as int) =~= nats(v@));
    m
}

/// The numbers of `v` that are not in `removed`, in order.
fn without(v: Vec<usize>, removed: &Vec<usize>) -> (r: Vec<usize>)
    ensures
        nats(r@) == nats(v@).filter(|n: nat| !nats(removed@).contains(n)),
{
    let ghost rv = nats(removed@);
    let ghost pred = |n: nat| !rv.contains(n);
    proof { reveal(Seq::filter); }
    let mut out: Vec<usize> = Vec::new();
    let mut i: usize = 0;
    assert(nats(out@) =~= nats(v@).subrange(0, 0).filter(pred));
    while i < v.len()
        invariant
            i <= v@.len(),
            rv == nats(removed@),
            pred == (|n: nat| !rv.contains(n)),
            nats(out@) == nats(v@).subrange(0, i as int).filter(pred),
        decreases v@.len() - i,
    {
        let n = v[i];
        let mut found = false;
        let mut k: usize = 0;
        while k < removed.len()
            invariant
                k <= removed@.len(),
                rv == nats(removed@),
                found == exists|j: int| 0 <= j < k && rv[j] == n as nat,
            decreases removed@.len() - k,
        {
            if removed[k] == n {
                assert(rv[k as int] == n as nat);
                found = true;
            }
            k = k + 1;
        }
        proof {
            assert(found == rv.contains(n as nat));
            reveal(Seq::filter);
            let w = nats(v@);
            assert(w.subrange(0, i + 1).drop_last() =~= w.subrange(0, i as int));
            assert(w.subrange(0, i + 1).last() == n as nat);
        }
        if !found {
            let ghost before = nats(out@);
            out.push(n);
            assert(nats(out@) =~= before.push(n as nat));
        }
        i = i + 1;
    }
    assert(nats(v@).subrange(0, v@.len() as int) =~= nats(v@));
    out
}

/// Builds the SQL of `base_sql` with the dynamic parameters `params` applied
/// (see `process_query`), the values of `initial_binds` bound to the
/// placeholders the SQL already has. A `LIMIT` or `OFFSET` replaced by the
/// parameters drops the values bound to its placeholders; the placeholders
/// are renumbered in order of appearance with the values reordered to match.
pub fn build_dynamic_sql(base_sql: &str, params: &Params, initial_binds: Vec<FilterValue>, db: Database) -> (r: Result<
    BuiltSql,
    BuildError,
>)
    requires
        limit_fits(*params),
    ensures
        match select_parse(base_sql@, db) {
            SelectParseKind::Failed(m) => (r matches Err(BuildError::Parser(x)) && x@ == m),
            SelectParseKind::Nothing => (r matches Err(BuildError::Protocol(x)) && x@ == no_statement_message(base_sql@)),
            SelectParseKind::NotQuery => if params.is_empty_spec() {
                r is Ok
            } else {
                r matches Err(BuildError::Protocol(x)) && x@ == "Only SELECT and INSERT statements are supported"@
            },
            SelectParseKind::NotSelect => (params.is_empty_spec() ==> r is Ok) && match select_binds(*params, db) {
                Ok(b) => (r is Err ==> r->Err_0 is TooManyPlaceholders) && ((db is MySql || b.len() == 0)
                    ==> r is Ok),
                Err(m) => r matches Err(e) ==> refused_with(e, m),
            },
            SelectParseKind::Select => (params.is_empty_spec() ==> r is Ok) && match select_binds(*params, db) {
                Ok(b) => (r is Err ==> r->Err_0 is TooManyPlaceholders) && ((db is MySql || b.len() == 0)
                    ==> r is Ok) && ((params.limit is None && params.offset is None) ==> (r is Ok
                    <==> numbering_fits(
                    (numbering_start(seq_max(numbered_placeholders(base_sql@)), initial_binds@.len()) + 1) as int,
                    db is MySql,
                    b.len() as int,
                )) && (r matches Ok(out) ==> exists|t: Seq<char>|
                    (out.sql@, values_view(out.bind_values@)) == #[trigger] renumber_spec(
                        t,
                        values_view(initial_binds@) + b,
                        numbered_placeholders(base_sql@),
                        seq_max(numbered_placeholders(base_sql@)),
                    ))),
                Err(m) => r matches Err(e) && refused_with(e, m),
            },
        },
{
    let mut binds = initial_binds;
    let query = match parse_select(base_sql, db) {
        SelectParse::Failed(m) => return Err(BuildError::Parser(m)),
        SelectParse::Nothing => {
            let mut m = string_of("Failed to parse SQL: `");
            m.append(base_sql);
            m.append("`");
            return Err(BuildError::Protocol(m));
        },
        SelectParse::NotQuery(statement) => {
            if params.is_empty() {
                let text = render_statement(&statement);
                let (sql, bind_values) = renumber_numbered_placeholders_with_binds(
                    text.as_str(),
                    &binds,
                    &Vec::new(),
                    0,
                );
                return Ok(BuiltSql { sql, bind_values });
            }
            return Err(BuildError::Protocol(string_of("Only SELECT and INSERT statements are supported")));
        },
        SelectParse::NotSelect(q) => (q, false),
        SelectParse::Select(q) => (q, true),
    };
    let (mut query, is_select) = query;
    let replaces_limit = params.limit.is_some() || params.offset.is_some();
    let mut numbers = collect_numbered_placeholders(base_sql);
    if replaces_limit {
        let trimmed = trim_limit_offset_placeholder_binds(&limit_shape(&query), &mut binds);
        numbers = without(numbers, &trimmed);
    }
    let max_existing = max_of(&numbers);
    if params.is_empty() {
        let text = render_statement(&query_statement(query));
        let (sql, bind_values) = renumber_numbered_placeholders_with_binds(text.as_str(), &binds, &numbers, max_existing);
        proof {
            let t = text@;
            assert(values_view(binds@) + Seq::<FilterValueView>::empty() =~= values_view(binds@));
            assert((sql@, values_view(bind_values@)) == renumber_spec(t, values_view(binds@), nats(numbers@), max_existing as nat));
        }
        return Ok(BuiltSql { sql, bind_values });
    }
    let processed = if is_select {
        process_select_query(&mut query, params, &mut binds, max_existing, db)
    } else {
        process_query(&mut query, params, &mut binds, max_existing, db)
    };
    match processed {
        Ok(()) => {},
        Err(e) => return Err(e),
    }
    let text = render_statement(&query_statement(query));
    let (sql, bind_values) = renumber_numbered_placeholders_with_binds(text.as_str(), &binds, &numbers, max_existing);
    proof {
        let t = text@;
        assert((sql@, values_view(bind_values@)) == renumber_spec(t, values_view(binds@), nats(numbers@), max_existing as nat));
    }
    Ok(BuiltSql { sql, bind_values })
}

} // verus!
