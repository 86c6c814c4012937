//! The SQL syntax trees of `sqlparser`, as far as applying scopes to a query
//! needs them: parsing a statement, moving clauses out of a `SELECT` and
//! back in, joining conditions with `AND`, and printing a query.
//!
//! The trees stay opaque here: what the crate decides about them is decided
//! from the kind of statement parsed (`select_parse`) and from the lists
//! and options that hold their pieces.
use vstd::prelude::*;
use crate::database::Database;
use crate::placeholders::LimitShape;
use sqlparser::ast::{
    BinaryOperator, Expr, Function, FunctionArg, FunctionArgExpr, FunctionArgumentList, FunctionArguments,
    GroupByExpr, GroupByWithModifier, Ident, Interpolate, Join, LimitClause, ObjectName, ObjectNamePart, Offset,
    OffsetRows, OrderBy, OrderByExpr, OrderByKind, OrderByOptions, OrderBySort, Query, Select, SelectItem, SetExpr,
    SetOperator, SetQuantifier, Statement, TableWithJoins, Value, Values,
};
use sqlparser::dialect::{MySqlDialect, PostgreSqlDialect, SQLiteDialect};
use sqlparser::parser::Parser;

verus! {

#[verifier::external_type_specification]
#[verifier::external_body]
pub struct ExQuery(Query);

#[verifier::external_type_specification]
#[verifier::external_body]
pub struct ExExpr(Expr);

#[verifier::external_type_specification]
#[verifier::external_body]
pub struct ExStatement(Statement);

#[verifier::external_type_specification]
#[verifier::external_body]
pub struct ExSetExpr(SetExpr);

#[verifier::external_type_specification]
#[verifier::external_body]
pub struct ExSelect(Select);

#[verifier::external_type_specification]
#[verifier::external_body]
pub struct ExSetOperator(SetOperator);

#[verifier::external_type_specification]
#[verifier::external_body]
pub struct ExSetQuantifier(SetQuantifier);

#[verifier::external_type_specification]
#[verifier::external_body]
pub struct ExSelectItem(SelectItem);

#[verifier::external_type_specification]
#[verifier::external_body]
pub struct ExOrderByExpr(OrderByExpr);

#[verifier::external_type_specification]
#[verifier::external_body]
pub struct ExOrderByOptions(OrderByOptions);

#[verifier::external_type_specification]
#[verifier::external_body]
pub struct ExInterpolate(Interpolate);

#[verifier::external_type_specification]
#[verifier::external_body]
pub struct ExTableWithJoins(TableWithJoins);

#[verifier::external_type_specification]
#[verifier::external_body]
pub struct ExJoin(Join);

#[verifier::external_type_specification]
#[verifier::external_body]
pub struct ExGroupByWithModifier(GroupByWithModifier);

/// What parsing a text gives, as far as scopes read it: the parser's error,
/// no statement at all, a statement that is not a query, a query whose body
/// is not a plain `SELECT` (with the query), or a `SELECT` query.
pub enum SelectParse {
    Failed(String),
    Nothing,
    NotQuery(Statement),
    NotSelect(Query),
    Select(Query),
}

/// The kind of a parse result (see `SelectParse`), with the parser's message.
pub enum SelectParseKind {
    Failed(Seq<char>),
    Nothing,
    NotQuery,
    NotSelect,
    Select,
}

/// The kind of a parse result.
pub open spec fn parse_kind(p: SelectParse) -> SelectParseKind {
    match p {
        SelectParse::Failed(m) => SelectParseKind::Failed(m@),
        SelectParse::Nothing => SelectParseKind::Nothing,
        SelectParse::NotQuery(_) => SelectParseKind::NotQuery,
        SelectParse::NotSelect(_) => SelectParseKind::NotSelect,
        SelectParse::Select(_) => SelectParseKind::Select,
    }
}

/// The kind of what `sqlparser` makes of the first statement of `text` in
/// the dialect of `db`.
pub uninterp spec fn select_parse(text: Seq<char>, db: Database) -> SelectParseKind;

/// Parses `text` with `sqlparser::parser::Parser::parse_sql` in the dialect
/// of `db` and keeps the first statement, classified as `SelectParse` says.
/// The kind of the result is a function of the text and the database alone.
#[verifier::external_body]
pub(crate) fn parse_select(text: &str, db: Database) -> (r: SelectParse)
    ensures
        parse_kind(r) == select_parse(text@, db),
{
    let parsed = match db {
        Database::Postgres => Parser::parse_sql(&PostgreSqlDialect {}, text),
        Database::MySql => Parser::parse_sql(&MySqlDialect {}, text),
        Database::Sqlite => Parser::parse_sql(&SQLiteDialect {}, text),
    };
    match parsed.map(|v| v.into_iter().next()) {
        Err(e) => SelectParse::Failed(e.to_string()),
        Ok(None) => SelectParse::Nothing,
        Ok(Some(Statement::Query(q))) => match q.body.as_ref() {
            SetExpr::Select(_) => SelectParse::Select(*q),
            _ => SelectParse::NotSelect(*q),
        },
        Ok(Some(s)) => SelectParse::NotQuery(s),
    }
}

/// A `GROUP BY` clause: `ALL` or expressions, each with its modifiers.
pub enum GroupBy {
    All(Vec<GroupByWithModifier>),
    Expressions(Vec<Expr>, Vec<GroupByWithModifier>),
}

/// The kind of an `ORDER BY` clause: `ALL` or a list of expressions.
pub enum OrderKind {
    All(OrderByOptions),
    Expressions(Vec<OrderByExpr>),
}

/// An `ORDER BY` clause.
pub struct OrderByClause {
    pub kind: OrderKind,
    pub interpolate: Option<Interpolate>,
}

/// Moves the `WHERE` condition out of the `SELECT` of `q` (`None` if there
/// is none, or if the body is not a `SELECT`).
#[verifier::external_body]
pub(crate) fn take_selection(q: &mut Query) -> Option<Expr> {
    match q.body.as_mut() {
        SetExpr::Select(s) => s.selection.take(),
        _ => None,
    }
}

/// Sets the `WHERE` condition of the `SELECT` of `q`.
#[verifier::external_body]
pub(crate) fn put_selection(q: &mut Query, e: Option<Expr>) {
    if let SetExpr::Select(s) = q.body.as_mut() {
        s.selection = e;
    }
}

/// Moves the `HAVING` condition out of the `SELECT` of `q`.
#[verifier::external_body]
pub(crate) fn take_having(q: &mut Query) -> Option<Expr> {
    match q.body.as_mut() {
        SetExpr::Select(s) => s.having.take(),
        _ => None,
    }
}

/// Sets the `HAVING` condition of the `SELECT` of `q`.
#[verifier::external_body]
pub(crate) fn put_having(q: &mut Query, e: Option<Expr>) {
    if let SetExpr::Select(s) = q.body.as_mut() {
        s.having = e;
    }
}

/// Moves the select list out of the `SELECT` of `q`.
#[verifier::external_body]
pub(crate) fn take_projection(q: &mut Query) -> Vec<SelectItem> {
    match q.body.as_mut() {
        SetExpr::Select(s) => std::mem::take(&mut s.projection),
        _ => Vec::new(),
    }
}

/// Sets the select list of the `SELECT` of `q`.
#[verifier::external_body]
pub(crate) fn put_projection(q: &mut Query, items: Vec<SelectItem>) {
    if let SetExpr::Select(s) = q.body.as_mut() {
        s.projection = items;
    }
}

/// Moves the `FROM` list out of the `SELECT` of `q`.
#[verifier::external_body]
pub(crate) fn take_from(q: &mut Query) -> Vec<TableWithJoins> {
    match q.body.as_mut() {
        SetExpr::Select(s) => std::mem::take(&mut s.from),
        _ => Vec::new(),
    }
}

/// Sets the `FROM` list of the `SELECT` of `q`.
#[verifier::external_body]
pub(crate) fn put_from(q: &mut Query, from: Vec<TableWithJoins>) {
    if let SetExpr::Select(s) = q.body.as_mut() {
        s.from = from;
    }
}

/// Moves the `GROUP BY` clause out of the `SELECT` of `q`, leaving an empty
/// list of expressions (what `sqlparser` gives a `SELECT` without one).
#[verifier::external_body]
pub(crate) fn take_group_by(q: &mut Query) -> GroupBy {
    let empty = GroupByExpr::Expressions(Vec::new(), Vec::new());
    match q.body.as_mut() {
        SetExpr::Select(s) => match std::mem::replace(&mut s.group_by, empty) {
            GroupByExpr::All(m) => GroupBy::All(m),
            GroupByExpr::Expressions(e, m) => GroupBy::Expressions(e, m),
        },
        _ => GroupBy::Expressions(Vec::new(), Vec::new()),
    }
}

/// Sets the `GROUP BY` clause of the `SELECT` of `q`.
#[verifier::external_body]
pub(crate) fn put_group_by(q: &mut Query, g: GroupBy) {
    if let SetExpr::Select(s) = q.body.as_mut() {
        s.group_by = match g {
            GroupBy::All(m) => GroupByExpr::All(m),
            GroupBy::Expressions(e, m) => GroupByExpr::Expressions(e, m),
        };
    }
}

/// Moves the `ORDER BY` clause out of `q`.
#[verifier::external_body]
pub(crate) fn take_order_by(q: &mut Query) -> Option<OrderByClause> {
    q.order_by.take().map(|o| OrderByClause {
        kind: match o.kind {
            OrderByKind::All(x) => OrderKind::All(x),
            OrderByKind::Expressions(v) => OrderKind::Expressions(v),
        },
        interpolate: o.interpolate,
    })
}

/// Sets the `ORDER BY` clause of `q`.
#[verifier::external_body]
pub(crate) fn put_order_by(q: &mut Query, o: Option<OrderByClause>) {
    q.order_by = o.map(|o| OrderBy {
        kind: match o.kind {
            OrderKind::All(x) => OrderByKind::All(x),
            OrderKind::Expressions(v) => OrderByKind::Expressions(v),
        },
        interpolate: o.interpolate,
    });
}

/// Moves the joins out of a `FROM` entry.
#[verifier::external_body]
pub(crate) fn take_joins(t: &mut TableWithJoins) -> Vec<Join> {
    std::mem::take(&mut t.joins)
}

/// Sets the joins of a `FROM` entry.
#[verifier::external_body]
pub(crate) fn put_joins(t: &mut TableWithJoins, joins: Vec<Join>) {
    t.joins = joins;
}

/// The condition `left AND right` (`Expr::BinaryOp` with
/// `BinaryOperator::And`).
#[verifier::external_body]
pub(crate) fn and_expr(left: Expr, right: Expr) -> Expr {
    Expr::BinaryOp { left: Box::new(left), op: BinaryOperator::And, right: Box::new(right) }
}

/// The SQL text of `q`, as `sqlparser` prints it (`Query`'s `Display`).
/// Nothing is stated of the text: the tree it prints has no view here.
#[verifier::external_body]
pub(crate) fn render_query(q: &Query) -> String {
    q.to_string()
}

/// The variant of a parsed statement that reads or changes data.
#[derive(Debug, Clone, Copy, PartialEq, Eq, Structural)]
pub enum DataVariant {
    Query,
    Insert,
    Update,
    Delete,
    Other,
}

/// The variant of a parsed statement that changes the schema.
#[derive(Debug, Clone, Copy, PartialEq, Eq, Structural)]
pub enum SchemaVariant {
    CreateTable,
    CreateIndex,
    CreateView,
    CreateVirtualTable,
    CreateSchema,
    CreateDatabase,
    Drop,
    AlterTable,
    AlterView,
    AlterIndex,
    Truncate,
    Pragma,
    Other,
}

/// The data variant of `sqlparser`'s `Statement`, one arm per variant
/// told apart. Nothing is stated of the result: the tree is opaque here.
#[verifier::external_body]
pub(crate) fn data_variant(s: &Statement) -> DataVariant {
    match s {
        Statement::Query(_) => DataVariant::Query,
        Statement::Insert(_) => DataVariant::Insert,
        Statement::Update { .. } => DataVariant::Update,
        Statement::Delete(_) => DataVariant::Delete,
        _ => DataVariant::Other,
    }
}

/// The schema variant of `sqlparser`'s `Statement`, one arm per variant
/// told apart. Nothing is stated of the result: the tree is opaque here.
#[verifier::external_body]
pub(crate) fn schema_variant(s: &Statement) -> SchemaVariant {
    match s {
        Statement::CreateTable(_) => SchemaVariant::CreateTable,
        Statement::CreateIndex(_) => SchemaVariant::CreateIndex,
        Statement::CreateView { .. } => SchemaVariant::CreateView,
        Statement::CreateVirtualTable { .. } => SchemaVariant::CreateVirtualTable,
        Statement::CreateSchema { .. } => SchemaVariant::CreateSchema,
        Statement::CreateDatabase { .. } => SchemaVariant::CreateDatabase,
        Statement::Drop { .. } => SchemaVariant::Drop,
        Statement::AlterTable { .. } => SchemaVariant::AlterTable,
        Statement::AlterView { .. } => SchemaVariant::AlterView,
        Statement::AlterIndex { .. } => SchemaVariant::AlterIndex,
        Statement::Truncate { .. } => SchemaVariant::Truncate,
        Statement::Pragma { .. } => SchemaVariant::Pragma,
        _ => SchemaVariant::Other,
    }
}

/// The SQL text of a statement, as `sqlparser` prints it (`Statement`'s
/// `Display`). Nothing is stated of the text: the tree it prints has no
/// view here.
#[verifier::external_body]
pub(crate) fn render_statement(s: &Statement) -> String {
    s.to_string()
}

/// The statement holding the query `q` (`Statement::Query`).
#[verifier::external_body]
pub(crate) fn query_statement(q: Query) -> Statement {
    Statement::Query(Box::new(q))
}

/// A comparison or connective between two conditions.
pub enum BinOp {
    Eq,
    NotEq,
    Gt,
    Lt,
    GtEq,
    LtEq,
    And,
    Or,
}

/// The column `name` (`Expr::Identifier`).
#[verifier::external_body]
pub(crate) fn column(name: &str) -> Expr {
    Expr::Identifier(Ident::new(name))
}

/// `left <op> right` (`Expr::BinaryOp`).
#[verifier::external_body]
pub(crate) fn binary(op: BinOp, left: Expr, right: Expr) -> Expr {
    let op = match op {
        BinOp::Eq => BinaryOperator::Eq,
        BinOp::NotEq => BinaryOperator::NotEq,
        BinOp::Gt => BinaryOperator::Gt,
        BinOp::Lt => BinaryOperator::Lt,
        BinOp::GtEq => BinaryOperator::GtEq,
        BinOp::LtEq => BinaryOperator::LtEq,
        BinOp::And => BinaryOperator::And,
        BinOp::Or => BinaryOperator::Or,
    };
    Expr::BinaryOp { left: Box::new(left), op, right: Box::new(right) }
}

/// `(e)` (`Expr::Nested`).
#[verifier::external_body]
pub(crate) fn nested(e: Expr) -> Expr {
    Expr::Nested(Box::new(e))
}

/// The string literal `text` (`Value::SingleQuotedString`).
#[verifier::external_body]
pub(crate) fn string_literal(text: &str) -> Expr {
    Expr::value(Value::SingleQuotedString(text.to_string()))
}

/// `expr [NOT] LIKE pattern ESCAPE escape`.
#[verifier::external_body]
pub(crate) fn like_escaped(negated: bool, expr: Expr, pattern: Expr, escape: Expr) -> Expr {
    Expr::Like { negated, any: false, expr: Box::new(expr), pattern: Box::new(pattern), escape_char: Some(Box::new(escape)) }
}

/// `expr [NOT] LIKE pattern`, without an escape character.
#[verifier::external_body]
pub(crate) fn like_plain(negated: bool, expr: Expr, pattern: Expr) -> Expr {
    Expr::Like { negated, any: false, expr: Box::new(expr), pattern: Box::new(pattern), escape_char: None }
}

/// `expr [NOT] ILIKE pattern ESCAPE escape`.
#[verifier::external_body]
pub(crate) fn ilike_escaped(negated: bool, expr: Expr, pattern: Expr, escape: Expr) -> Expr {
    Expr::ILike { negated, any: false, expr: Box::new(expr), pattern: Box::new(pattern), escape_char: Some(Box::new(escape)) }
}

/// `expr [NOT] IN (list)`.
#[verifier::external_body]
pub(crate) fn in_list(expr: Expr, list: Vec<Expr>, negated: bool) -> Expr {
    Expr::InList { expr: Box::new(expr), list, negated }
}

/// `expr [NOT] BETWEEN low AND high`.
#[verifier::external_body]
pub(crate) fn between(expr: Expr, low: Expr, high: Expr, negated: bool) -> Expr {
    Expr::Between { expr: Box::new(expr), negated, low: Box::new(low), high: Box::new(high) }
}

/// `expr IS NULL`.
#[verifier::external_body]
pub(crate) fn is_null(expr: Expr) -> Expr {
    Expr::IsNull(Box::new(expr))
}

/// `expr IS NOT NULL`.
#[verifier::external_body]
pub(crate) fn is_not_null(expr: Expr) -> Expr {
    Expr::IsNotNull(Box::new(expr))
}

/// `name(expr)` (`Expr::Function`).
#[verifier::external_body]
pub(crate) fn function_call(name: &str, expr: Expr) -> Expr {
    let args = FunctionArgumentList {
        duplicate_treatment: None,
        args: vec![FunctionArg::Unnamed(FunctionArgExpr::Expr(expr))],
        clauses: vec![],
    };
    let name = ObjectName(vec![ObjectNamePart::Identifier(Ident::new(name))]);
    Expr::Function(Function {
        name, uses_odbc_syntax: false, parameters: FunctionArguments::None, args: FunctionArguments::List(args),
        within_group: vec![], filter: None, null_treatment: None, over: None,
    })
}

/// The placeholder `text` (`Value::Placeholder`).
#[verifier::external_body]
pub(crate) fn placeholder(text: &str) -> Expr {
    Expr::value(Value::Placeholder(text.to_string()))
}

/// The number literal `text` (`Value::Number`).
#[verifier::external_body]
pub(crate) fn number(text: &str) -> Expr {
    Expr::value(Value::Number(text.to_string(), false))
}

/// `column ASC|DESC [NULLS FIRST|LAST]` for `ORDER BY`.
#[verifier::external_body]
pub(crate) fn order_expr(field: &str, asc: bool, nulls_first: Option<bool>) -> OrderByExpr {
    let sort = match asc {
        true => OrderBySort::Asc,
        false => OrderBySort::Desc,
    };
    OrderByExpr { expr: Expr::Identifier(Ident::new(field)), options: OrderByOptions { sort: Some(sort), nulls_first }, with_fill: None }
}

/// Sets `LIMIT limit OFFSET offset` on `q`.
#[verifier::external_body]
pub(crate) fn set_limit_offset(q: &mut Query, limit: Option<Expr>, offset: Option<Expr>) {
    let offset = offset.map(|value| Offset { value, rows: OffsetRows::None });
    q.limit_clause = Some(LimitClause::LimitOffset { limit, offset, limit_by: vec![] });
}

/// The text of `e` when it is a placeholder.
#[verifier::external_body]
pub(crate) fn placeholder_text(e: &Expr) -> Option<String> {
    match e {
        Expr::Value(v) => match &v.value {
            Value::Placeholder(p) => Some(p.clone()),
            _ => None,
        },
        _ => None,
    }
}

/// The expressions of a `LIMIT` clause: `LIMIT limit OFFSET offset`, or
/// `LIMIT offset, limit`.
pub enum LimitExprs {
    LimitOffset(Option<Expr>, Option<Expr>),
    OffsetCommaLimit(Expr, Expr),
}

/// Copies of the expressions of the `LIMIT` clause of `q`, if it has one.
#[verifier::external_body]
pub(crate) fn limit_exprs(q: &Query) -> Option<LimitExprs> {
    match &q.limit_clause {
        None => None,
        Some(LimitClause::LimitOffset { limit, offset, .. }) => {
            Some(LimitExprs::LimitOffset(limit.clone(), offset.as_ref().map(|o| o.value.clone())))
        },
        Some(LimitClause::OffsetCommaLimit { offset, limit }) => {
            Some(LimitExprs::OffsetCommaLimit(offset.clone(), limit.clone()))
        },
    }
}

/// The `LIMIT` clause of `q`, as far as bound values go: the placeholder
/// text of each of its expressions.
pub(crate) fn limit_shape(q: &Query) -> Option<LimitShape> {
    match limit_exprs(q) {
        None => None,
        Some(LimitExprs::LimitOffset(limit, offset)) => {
            let l = match &limit {
                Some(e) => Some(placeholder_text(e)),
                None => None,
            };
            let o = match &offset {
                Some(e) => Some(placeholder_text(e)),
                None => None,
            };
            Some(LimitShape::LimitOffset(l, o))
        },
        Some(LimitExprs::OffsetCommaLimit(offset, limit)) => {
            Some(LimitShape::OffsetCommaLimit(placeholder_text(&offset), placeholder_text(&limit)))
        },
    }
}

/// A query body taken apart: a `SELECT`, a set operation (`UNION`, ...) with
/// its two sides, a parenthesized query, or anything else.
pub enum SetParts {
    Select(Select),
    Operation(SetExpr, SetExpr, SetOperator, SetQuantifier),
    Query(Query),
    Other(SetExpr),
}

/// Moves the body out of `q`, leaving an empty `VALUES` list in its place.
#[verifier::external_body]
pub(crate) fn take_body(q: &mut Query) -> SetExpr {
    let empty = SetExpr::Values(Values { explicit_row: false, value_keyword: false, rows: vec![] });
    std::mem::replace(q.body.as_mut(), empty)
}

/// Sets the body of `q`.
#[verifier::external_body]
pub(crate) fn put_body(q: &mut Query, body: SetExpr) {
    *q.body = body;
}

/// Takes a query body apart (see `SetParts`).
#[verifier::external_body]
pub(crate) fn split_set_expr(e: SetExpr) -> SetParts {
    match e {
        SetExpr::Select(s) => SetParts::Select(*s),
        SetExpr::SetOperation { left, op, set_quantifier, right } => SetParts::Operation(*left, *right, op, set_quantifier),
        SetExpr::Query(q) => SetParts::Query(*q),
        other => SetParts::Other(other),
    }
}

/// Puts a query body back together.
#[verifier::external_body]
pub(crate) fn join_set_expr(p: SetParts) -> SetExpr {
    match p {
        SetParts::Select(s) => SetExpr::Select(Box::new(s)),
        SetParts::Operation(left, right, op, set_quantifier) => {
            SetExpr::SetOperation { left: Box::new(left), op, set_quantifier, right: Box::new(right) }
        },
        SetParts::Query(q) => SetExpr::Query(Box::new(q)),
        SetParts::Other(e) => e,
    }
}

/// Moves the `WHERE` condition out of a `SELECT`.
#[verifier::external_body]
pub(crate) fn select_take_selection(s: &mut Select) -> Option<Expr> {
    s.selection.take()
}

/// Sets the `WHERE` condition of a `SELECT`.
#[verifier::external_body]
pub(crate) fn select_put_selection(s: &mut Select, e: Option<Expr>) {
    s.selection = e;
}

} // verus!
