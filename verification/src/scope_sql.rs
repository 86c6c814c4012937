//! Applying the active scopes of a manager to a `SELECT` query.
//!
//! Each scope's SQL is parsed inside a small query written for its clause
//! (`SELECT 1 WHERE <sql>`, `SELECT <sql>`, ...), the piece it gives is moved
//! into the query, and the query is printed again. `WHERE` and `HAVING`
//! conditions are joined to the existing one with `AND`; select items, `FROM`
//! entries, joins, `GROUP BY` and `ORDER BY` expressions are appended.
use vstd::prelude::*;
use crate::database::Database;
use crate::error::MacroError;
use crate::scope::{
    ScopeDefinition, ScopeEntry, ScopeManager, ScopeManagerView, ScopeTarget, active_spec, active_for_spec,
    entries_of, entry_of, has_target,
};
use crate::sql_ast::{
    GroupBy, OrderByClause, OrderKind, SelectParse, SelectParseKind, and_expr, parse_kind, parse_select, put_from, put_group_by,
    put_having, put_joins, put_order_by, put_projection, put_selection, render_query, select_parse, take_from,
    take_group_by, take_having, take_joins, take_order_by, take_projection, take_selection,
};
use crate::scope_laws::lemma_active_scopes;
use crate::syntax::{first_match, lemma_first_match};
use crate::text::string_of;
use sqlparser::ast::{Expr, OrderByExpr, Query, SelectItem, TableWithJoins};

verus! {

/// The text a scope's SQL is put after to parse it as a piece of its clause.
pub open spec fn probe_prefix(t: ScopeTarget) -> Seq<char> {
    match t {
        ScopeTarget::Where => "SELECT 1 WHERE "@,
        ScopeTarget::Select => "SELECT "@,
        ScopeTarget::OrderBy => "SELECT 1 ORDER BY "@,
        ScopeTarget::From => "SELECT * FROM "@,
        ScopeTarget::Join => "SELECT * FROM __dummy__ "@,
        ScopeTarget::GroupBy => "SELECT * GROUP BY "@,
        ScopeTarget::Having => "SELECT 1 HAVING "@,
    }
}

/// The query a scope is parsed in.
pub open spec fn probe_text(e: ScopeEntry) -> Seq<char> {
    probe_prefix(e.2) + e.1
}

/// Whether a scope parses to a query its clause can take: a `SELECT`, or,
/// for `ORDER BY`, any query.
pub open spec fn probe_accepted(e: ScopeEntry, db: Database) -> bool {
    match select_parse(probe_text(e), db) {
        SelectParseKind::Select => true,
        SelectParseKind::NotSelect => e.2 == ScopeTarget::OrderBy,
        _ => false,
    }
}

/// Whether every scope of a list parses to a query its clause can take.
pub open spec fn all_accepted(es: Seq<ScopeEntry>, db: Database) -> bool {
    forall|i: int| 0 <= i < es.len() ==> probe_accepted(#[trigger] es[i], db)
}

/// Whether a scope's query parses to a `SELECT`.
pub open spec fn probe_is_select(e: ScopeEntry, db: Database) -> bool {
    select_parse(probe_text(e), db) is Select
}

/// The message a scope's query gives when it failed to parse or held no
/// statement, or else `other`.
pub open spec fn parse_error_or(e: ScopeEntry, db: Database, other: Seq<char>) -> Seq<char> {
    match select_parse(probe_text(e), db) {
        SelectParseKind::Failed(m) => m,
        SelectParseKind::Nothing => no_statement_message(),
        _ => other,
    }
}

/// The error a `WHERE` (or, with `having`, `HAVING`) scope stops with: its
/// query's parse error, or a message naming it when the query is not a
/// `SELECT` or, being one, gives no condition.
pub open spec fn where_error(e: ScopeEntry, db: Database, having: bool) -> Seq<char> {
    match select_parse(probe_text(e), db) {
        SelectParseKind::NotQuery => "Scope '"@ + e.0 + "' is not a valid SELECT query"@,
        SelectParseKind::NotSelect => "Scope '"@ + e.0 + "' is not a SELECT expression"@,
        SelectParseKind::Select => "Scope '"@ + e.0 + (if having {
            "' produced no HAVING condition"@
        } else {
            "' produced no WHERE condition"@
        }),
        _ => parse_error_or(e, db, Seq::empty()),
    }
}

/// Whether reading the scopes `es` can have stopped at scope `k`: the
/// scopes before it were taken.
pub open spec fn stops_at(es: Seq<ScopeEntry>, db: Database, k: int) -> bool {
    0 <= k < es.len() && all_accepted(es.subrange(0, k), db)
}

/// The error a `SELECT` scope stops with: its query's parse error, or a
/// message quoting its SQL when the query is not a `SELECT` or, being one,
/// selects nothing.
pub open spec fn select_item_error(e: ScopeEntry, db: Database) -> Seq<char> {
    match select_parse(probe_text(e), db) {
        SelectParseKind::NotQuery => "Invalid SELECT scope SQL (not a query): "@ + e.1,
        SelectParseKind::NotSelect => "Invalid SELECT scope SQL (not a SELECT expr): "@ + e.1,
        SelectParseKind::Select => "Invalid SELECT scope SQL (no projection): "@ + e.1,
        _ => parse_error_or(e, db, Seq::empty()),
    }
}

/// The first scope of `es` whose query its clause cannot take (`es.len()`
/// when there is none).
pub open spec fn first_refused(es: Seq<ScopeEntry>, db: Database) -> nat {
    first_match(es, |e: ScopeEntry| !probe_accepted(e, db))
}

/// The error an `ORDER BY` scope stops with.
pub open spec fn order_error(e: ScopeEntry, db: Database) -> Seq<char> {
    parse_error_or(e, db, "Invalid ORDER BY scope (not a query): "@ + e.1)
}

/// The first scope of `es` whose query is not a `SELECT` (`es.len()` when
/// there is none).
pub open spec fn first_not_select(es: Seq<ScopeEntry>, db: Database) -> nat {
    first_match(es, |e: ScopeEntry| !probe_is_select(e, db))
}

/// The error a `FROM`, `JOIN` or `GROUP BY` scope (`clause`) stops with
/// when its query is not a `SELECT`.
pub open spec fn clause_error(clause: Seq<char>, e: ScopeEntry, db: Database) -> Seq<char> {
    match select_parse(probe_text(e), db) {
        SelectParseKind::NotQuery => "Invalid "@ + clause + " scope (not a query): "@ + e.1,
        SelectParseKind::NotSelect => "Invalid "@ + clause + " scope (not a SELECT expr): "@ + e.1,
        _ => parse_error_or(e, db, Seq::empty()),
    }
}

/// The message for a query that is not a `SELECT`.
pub open spec fn not_select_message() -> Seq<char> {
    "Only SELECT queries support scope application"@
}

/// The message for a text that holds no statement.
pub open spec fn no_statement_message() -> Seq<char> {
    "Failed to parse SQL"@
}

/// The prefix of `probe_prefix(t)`, as a string.
fn prefix_str(t: ScopeTarget) -> (r: &'static str)
    ensures
        r@ == probe_prefix(t),
{
    match t {
        ScopeTarget::Where => "SELECT 1 WHERE ",
        ScopeTarget::Select => "SELECT ",
        ScopeTarget::OrderBy => "SELECT 1 ORDER BY ",
        ScopeTarget::From => "SELECT * FROM ",
        ScopeTarget::Join => "SELECT * FROM __dummy__ ",
        ScopeTarget::GroupBy => "SELECT * GROUP BY ",
        ScopeTarget::Having => "SELECT 1 HAVING ",
    }
}

/// Parses a scope inside the query written for its clause.
fn probe(d: &ScopeDefinition, db: Database) -> (r: SelectParse)
    ensures
        parse_kind(r) == select_parse(probe_text(entry_of(*d)), db),
{
    let mut text = string_of(prefix_str(d.target));
    text.append(d.sql.as_str());
    parse_select(text.as_str(), db)
}

/// An error whose message is `a`, then `b`, then `c`.
fn error3(a: &str, b: &str, c: &str) -> (r: MacroError)
    ensures
        r.message@ == a@ + b@ + c@,
{
    let mut m = string_of(a);
    m.append(b);
    m.append(c);
    MacroError::new(m)
}

/// The error for a probe that failed to parse or held no statement.
fn parse_failure(message: Option<String>) -> (r: MacroError)
    ensures
        r.message@ == (match message {
            Some(m) => m@,
            None => no_statement_message(),
        }),
{
    match message {
        Some(m) => MacroError::new(m),
        None => MacroError::new(string_of("Failed to parse SQL")),
    }
}

/// The conditions of `WHERE` scopes (or, with `having`, `HAVING` scopes), in
/// order.
fn build_where_conditions(group: &Vec<&ScopeDefinition>, db: Database, having: bool) -> (r: Result<
    Vec<Expr>,
    MacroError,
>)
    ensures
        r matches Ok(v) ==> v@.len() == group@.len() && all_accepted(entries_of(group@), db),
        r matches Err(e) ==> exists|k: int|
            #[trigger] stops_at(entries_of(group@), db, k) && e.message@ == where_error(entries_of(group@)[k], db, having),
{
    let ghost es = entries_of(group@);
    let mut out: Vec<Expr> = Vec::new();
    let mut i: usize = 0;
    while i < group.len()
        invariant
            i <= group@.len(),
            es == entries_of(group@),
            out@.len() == i,
            all_accepted(entries_of(group@).subrange(0, i as int), db),
        decreases group@.len() - i,
    {
        let d = group[i];
        let name = d.name.as_str();
        proof {
            assert(es[i as int] == entry_of(*d));
        }
        let mut q: Query = match probe(d, db) {
            SelectParse::Failed(m) => {
                let e = parse_failure(Some(m));
                assert(stops_at(es, db, i as int) && e.message@ == where_error(es[i as int], db, having));
                return Err(e);
            },
            SelectParse::Nothing => {
                let e = parse_failure(None);
                assert(stops_at(es, db, i as int) && e.message@ == where_error(es[i as int], db, having));
                return Err(e);
            },
            SelectParse::NotQuery(_) => {
                let e = error3("Scope '", name, "' is not a valid SELECT query");
                assert(stops_at(es, db, i as int) && e.message@ == where_error(es[i as int], db, having));
                return Err(e);
            },
            SelectParse::NotSelect(_) => {
                let e = error3("Scope '", name, "' is not a SELECT expression");
                assert(stops_at(es, db, i as int) && e.message@ == where_error(es[i as int], db, having));
                return Err(e);
            },
            SelectParse::Select(q) => q,
        };
        let cond = if having { take_having(&mut q) } else { take_selection(&mut q) };
        match cond {
            Some(e) => out.push(e),
            None => {
                let e = if having {
                    error3("Scope '", name, "' produced no HAVING condition")
                } else {
                    error3("Scope '", name, "' produced no WHERE condition")
                };
                assert(stops_at(es, db, i as int) && e.message@ == where_error(es[i as int], db, having));
                return Err(e);
            },
        }
        proof {
            let es = entries_of(group@);
            assert(es.subrange(0, i + 1) =~= es.subrange(0, i as int).push(es[i as int]));
        }
        i = i + 1;
    }
    proof {
        assert(entries_of(group@).subrange(0, group@.len() as int) =~= entries_of(group@));
    }
    Ok(out)
}

/// The shape of a condition made from the query's own condition and the
/// scope conditions: the query's own, the scope condition `k` (in scope
/// order), or two joined by `AND`.
pub enum CondShape {
    Existing,
    Scope(nat),
    And(Box<CondShape>, Box<CondShape>),
}

/// Whether a condition of shape `c` holds of a row for which the query's
/// own condition gives `existing` and scope condition `k` gives `scope(k)`.
pub open spec fn shape_holds(c: CondShape, existing: bool, scope: spec_fn(nat) -> bool) -> bool
    decreases c,
{
    match c {
        CondShape::Existing => existing,
        CondShape::Scope(k) => scope(k),
        CondShape::And(l, r) => shape_holds(*l, existing, scope) && shape_holds(*r, existing, scope),
    }
}

/// `c0 AND c1 AND ... AND c(n-1)`, joined from the left.
pub open spec fn scope_chain(n: nat) -> CondShape
    decreases n,
{
    if n <= 1 {
        CondShape::Scope(0)
    } else {
        CondShape::And(Box::new(scope_chain((n - 1) as nat)), Box::new(CondShape::Scope((n - 1) as nat)))
    }
}

/// The condition scopes leave: `existing AND (c0 AND ... )` when the query
/// has one, else the scope conditions alone.
pub open spec fn conjoined_shape(has_existing: bool, n: nat) -> CondShape {
    if has_existing {
        CondShape::And(Box::new(CondShape::Existing), Box::new(scope_chain(n)))
    } else {
        scope_chain(n)
    }
}

/// `left AND right`, with its shape.
fn and_shaped(left: (Expr, Ghost<CondShape>), right: (Expr, Ghost<CondShape>)) -> (r: (Expr, Ghost<CondShape>))
    ensures
        r.1@ == CondShape::And(Box::new(left.1@), Box::new(right.1@)),
{
    (and_expr(left.0, right.0), Ghost(CondShape::And(Box::new(left.1@), Box::new(right.1@))))
}

/// `existing AND (c0 AND c1 AND ...)`, or the conjunction of the conditions
/// alone when there is no existing one; with its shape.
fn combine_where_conditions(existing: Option<Expr>, conds: Vec<Expr>) -> (r: (Expr, Ghost<CondShape>))
    requires
        conds@.len() > 0,
    ensures
        r.1@ == conjoined_shape(existing is Some, conds@.len()),
{
    let ghost n: nat = conds.len() as nat;
    let mut rest = conds;
    let first = rest.remove(0);
    let mut combined: (Expr, Ghost<CondShape>) = (first, Ghost(CondShape::Scope(0)));
    let mut k: usize = 1;
    while rest.len() > 0
        invariant
            k + rest@.len() == n,
            n <= usize::MAX,
            k >= 1,
            combined.1@ == scope_chain(k as nat),
        decreases rest@.len(),
    {
        let c = rest.remove(0);
        combined = and_shaped(combined, (c, Ghost(CondShape::Scope(k as nat))));
        k = k + 1;
    }
    match existing {
        Some(e) => and_shaped((e, Ghost(CondShape::Existing)), combined),
        None => combined,
    }
}

/// ANDs `conds` into the `WHERE` (or, with `having`, the `HAVING`)
/// condition of `query`; gives whether the query had one and the shape of
/// the condition it has now.
fn conjoin_into(query: &mut Query, conds: Vec<Expr>, having: bool) -> (r: Ghost<(bool, CondShape)>)
    requires
        conds@.len() > 0,
    ensures
        r@.1 == conjoined_shape(r@.0, conds@.len()),
{
    let ghost n = conds@.len();
    let existing = if having { take_having(query) } else { take_selection(query) };
    let had = existing.is_some();
    let (combined, shape) = combine_where_conditions(existing, conds);
    if having {
        put_having(query, Some(combined));
    } else {
        put_selection(query, Some(combined));
    }
    Ghost((had, shape@))
}

/// The scope conditions joined from the left hold exactly when all of them do.
proof fn lemma_scope_chain_holds(n: nat, existing: bool, scope: spec_fn(nat) -> bool)
    requires
        n >= 1,
    ensures
        shape_holds(scope_chain(n), existing, scope) == (forall|k: nat| k < n ==> #[trigger] scope(k)),
    decreases n,
{
    let all = forall|k: nat| k < n ==> #[trigger] scope(k);
    if n > 1 {
        let m = (n - 1) as nat;
        lemma_scope_chain_holds(m, existing, scope);
        let sc = CondShape::And(Box::new(scope_chain(m)), Box::new(CondShape::Scope(m)));
        assert(scope_chain(n) == sc);
        assert(shape_holds(CondShape::Scope(m), existing, scope) == scope(m));
        assert(shape_holds(sc, existing, scope) == (shape_holds(scope_chain(m), existing, scope) && scope(m)));
        if all {
            assert(scope(m));
            assert forall|k: nat| k < m implies #[trigger] scope(k) by {}
        }
        if shape_holds(scope_chain(n), existing, scope) {
            assert forall|k: nat| k < n implies #[trigger] scope(k) by {
                if k < m {
                }
            }
        }
    } else {
        assert(shape_holds(scope_chain(n), existing, scope) == scope(0));
        if !scope(0) {
            assert(!all);
        }
    }
}

/// `WHERE` and `HAVING` scopes narrow the query and never widen it: the
/// condition they leave holds of a row exactly when the query's own
/// condition (if it has one) holds and every scope condition holds. So the
/// query's own condition is kept, not replaced, and no scope is dropped.
pub proof fn law_scopes_conjoin(has_existing: bool, n: nat, existing: bool, scope: spec_fn(nat) -> bool)
    requires
        n >= 1,
    ensures
        shape_holds(conjoined_shape(has_existing, n), existing, scope) == ((has_existing ==> existing) && forall|k: nat|
            k < n ==> #[trigger] scope(k)),
{
    lemma_scope_chain_holds(n, existing, scope);
    if has_existing {
        let c = CondShape::And(Box::new(CondShape::Existing), Box::new(scope_chain(n)));
        assert(conjoined_shape(has_existing, n) == c);
        assert(shape_holds(CondShape::Existing, existing, scope) == existing);
        assert(shape_holds(c, existing, scope) == (existing && shape_holds(
            scope_chain(n),
            existing,
            scope,
        )));
    }
}

/// The select items of `SELECT` scopes, one per scope, in order.
fn scope_select_items(group: &Vec<&ScopeDefinition>, db: Database) -> (r: Result<Vec<SelectItem>, MacroError>)
    ensures
        r matches Ok(v) ==> v@.len() == group@.len() && all_accepted(entries_of(group@), db),
        r matches Err(e) ==> exists|k: int|
            #[trigger] stops_at(entries_of(group@), db, k) && e.message@ == select_item_error(entries_of(group@)[k], db),
{
    let ghost es = entries_of(group@);
    proof {
        reveal_strlit("");
        assert(""@ =~= Seq::<char>::empty());
    }
    let mut out: Vec<SelectItem> = Vec::new();
    let mut i: usize = 0;
    while i < group.len()
        invariant
            i <= group@.len(),
            es == entries_of(group@),
            ""@ == Seq::<char>::empty(),
            out@.len() == i,
            all_accepted(entries_of(group@).subrange(0, i as int), db),
        decreases group@.len() - i,
    {
        let d = group[i];
        let sql = d.sql.as_str();
        proof {
            assert(es[i as int] == entry_of(*d));
        }
        let mut q: Query = match probe(d, db) {
            SelectParse::Failed(m) => {
                let e = parse_failure(Some(m));
                assert(stops_at(es, db, i as int) && e.message@ == select_item_error(es[i as int], db));
                return Err(e);
            },
            SelectParse::Nothing => {
                let e = parse_failure(None);
                assert(stops_at(es, db, i as int) && e.message@ == select_item_error(es[i as int], db));
                return Err(e);
            },
            SelectParse::NotQuery(_) => {
                let e = error3("Invalid SELECT scope SQL (not a query): ", sql, "");
                assert(e.message@ =~= "Invalid SELECT scope SQL (not a query): "@ + sql@);
                assert(stops_at(es, db, i as int) && e.message@ == select_item_error(es[i as int], db));
                return Err(e);
            },
            SelectParse::NotSelect(_) => {
                let e = error3("Invalid SELECT scope SQL (not a SELECT expr): ", sql, "");
                assert(e.message@ =~= "Invalid SELECT scope SQL (not a SELECT expr): "@ + sql@);
                assert(stops_at(es, db, i as int) && e.message@ == select_item_error(es[i as int], db));
                return Err(e);
            },
            SelectParse::Select(q) => q,
        };
        let mut items = take_projection(&mut q);
        if items.len() == 0 {
            let e = error3("Invalid SELECT scope SQL (no projection): ", sql, "");
            assert(e.message@ =~= "Invalid SELECT scope SQL (no projection): "@ + sql@);
            assert(stops_at(es, db, i as int) && e.message@ == select_item_error(es[i as int], db));
            return Err(e);
        }
        out.push(items.remove(0));
        proof {
            let es = entries_of(group@);
            assert(es.subrange(0, i + 1) =~= es.subrange(0, i as int).push(es[i as int]));
        }
        i = i + 1;
    }
    proof {
        assert(entries_of(group@).subrange(0, group@.len() as int) =~= entries_of(group@));
    }
    Ok(out)
}

/// The `ORDER BY` expressions of `ORDER BY` scopes, in order (a scope that
/// gives no list of expressions adds none).
fn build_order_by_expressions(group: &Vec<&ScopeDefinition>, db: Database) -> (r: Result<Vec<OrderByExpr>, MacroError>)
    requires
        forall|i: int| 0 <= i < group@.len() ==> (#[trigger] group@[i]).target == ScopeTarget::OrderBy,
    ensures
        r is Ok ==> all_accepted(entries_of(group@), db),
        first_refused(entries_of(group@), db) < group@.len() ==> (r matches Err(e) && e.message@ == order_error(
            entries_of(group@)[first_refused(entries_of(group@), db) as int],
            db,
        )),
        first_refused(entries_of(group@), db) >= group@.len() ==> r is Ok,
        (r is Ok && group@.len() == 0) ==> r->Ok_0@.len() == 0,
{
    let ghost es = entries_of(group@);
    let ghost refused = |e: ScopeEntry| !probe_accepted(e, db);
    proof {
        reveal_strlit("");
        assert(""@ =~= Seq::<char>::empty());
    }
    let mut out: Vec<OrderByExpr> = Vec::new();
    let mut i: usize = 0;
    while i < group.len()
        invariant
            i <= group@.len(),
            es == entries_of(group@),
            refused == (|e: ScopeEntry| !probe_accepted(e, db)),
            ""@ == Seq::<char>::empty(),
            all_accepted(entries_of(group@).subrange(0, i as int), db),
            forall|j: int| 0 <= j < i ==> !refused(#[trigger] es[j]),
            forall|k: int| 0 <= k < group@.len() ==> (#[trigger] group@[k]).target == ScopeTarget::OrderBy,
            i == 0 ==> out@.len() == 0,
        decreases group@.len() - i,
    {
        let d = group[i];
        proof {
            assert(es[i as int] == entry_of(*d));
        }
        let mut q: Query = match probe(d, db) {
            SelectParse::Failed(m) => {
                proof { lemma_first_match(es, refused, i as int); }
                return Err(parse_failure(Some(m)));
            },
            SelectParse::Nothing => {
                proof { lemma_first_match(es, refused, i as int); }
                return Err(parse_failure(None));
            },
            SelectParse::NotQuery(_) => {
                proof { lemma_first_match(es, refused, i as int); }
                let e = error3("Invalid ORDER BY scope (not a query): ", d.sql.as_str(), "");
                assert(e.message@ =~= "Invalid ORDER BY scope (not a query): "@ + d.sql@);
                return Err(e);
            },
            SelectParse::NotSelect(q) => q,
            SelectParse::Select(q) => q,
        };
        if let Some(clause) = take_order_by(&mut q) {
            if let OrderKind::Expressions(mut exprs) = clause.kind {
                out.append(&mut exprs);
            }
        }
        proof {
            let es = entries_of(group@);
            assert(es.subrange(0, i + 1) =~= es.subrange(0, i as int).push(es[i as int]));
        }
        i = i + 1;
    }
    proof {
        assert(entries_of(group@).subrange(0, group@.len() as int) =~= entries_of(group@));
        lemma_first_match(es, refused, i as int);
    }
    Ok(out)
}

/// The `SELECT` query of a `FROM`, `JOIN` or `GROUP BY` scope.
fn clause_query(d: &ScopeDefinition, db: Database, clause: &str) -> (r: Result<Query, MacroError>)
    ensures
        r is Ok <==> probe_is_select(entry_of(*d), db),
        r matches Err(e) ==> e.message@ == clause_error(clause@, entry_of(*d), db),
{
    match probe(d, db) {
        SelectParse::Failed(m) => Err(parse_failure(Some(m))),
        SelectParse::Nothing => Err(parse_failure(None)),
        SelectParse::NotQuery(_) => {
            let mut m = string_of("Invalid ");
            m.append(clause);
            m.append(" scope (not a query): ");
            m.append(d.sql.as_str());
            Err(MacroError::new(m))
        },
        SelectParse::NotSelect(_) => {
            let mut m = string_of("Invalid ");
            m.append(clause);
            m.append(" scope (not a SELECT expr): ");
            m.append(d.sql.as_str());
            Err(MacroError::new(m))
        },
        SelectParse::Select(q) => Ok(q),
    }
}

/// Adds the `FROM` entries of `FROM` scopes to `from`.
fn add_from_scopes(from: &mut Vec<TableWithJoins>, group: &Vec<&ScopeDefinition>, db: Database) -> (r: Result<
    (),
    MacroError,
>)
    ensures
        r is Ok ==> all_accepted(entries_of(group@), db),
        first_not_select(entries_of(group@), db) < group@.len() ==> (r matches Err(e) && e.message@ == clause_error(
            "FROM"@,
            entries_of(group@)[first_not_select(entries_of(group@), db) as int],
            db,
        )),
        first_not_select(entries_of(group@), db) >= group@.len() ==> r is Ok,
        tables_kept(old(from)@, final(from)@),
{
    let ghost es = entries_of(group@);
    let ghost not_select = |e: ScopeEntry| !probe_is_select(e, db);
    let ghost start = from@;
    assert(start.subrange(0, start.len() as int) =~= start);
    let mut i: usize = 0;
    while i < group.len()
        invariant
            start == old(from)@,
            tables_kept(start, from@),
            i <= group@.len(),
            es == entries_of(group@),
            not_select == (|e: ScopeEntry| !probe_is_select(e, db)),
            all_accepted(entries_of(group@).subrange(0, i as int), db),
            forall|j: int| 0 <= j < i ==> !not_select(#[trigger] es[j]),
        decreases group@.len() - i,
    {
        proof {
            assert(es[i as int] == entry_of(*group@[i as int]));
        }
        let mut q = match clause_query(group[i], db, "FROM") {
            Ok(q) => q,
            Err(e) => {
                proof { lemma_first_match(es, not_select, i as int); }
                return Err(e);
            },
        };
        let mut parsed = take_from(&mut q);
        let ghost mid = from@;
        from.append(&mut parsed);
        assert(from@.subrange(0, start.len() as int) =~= mid.subrange(0, start.len() as int));
        proof {
            let es = entries_of(group@);
            assert(es.subrange(0, i + 1) =~= es.subrange(0, i as int).push(es[i as int]));
        }
        i = i + 1;
    }
    proof {
        assert(entries_of(group@).subrange(0, group@.len() as int) =~= entries_of(group@));
        lemma_first_match(es, not_select, i as int);
    }
    Ok(())
}

/// Whether the `FROM` list `after` keeps the tables of `before` first, in
/// their order (scopes only add tables after them).
pub open spec fn tables_kept(before: Seq<TableWithJoins>, after: Seq<TableWithJoins>) -> bool {
    after.len() >= before.len() && after.subrange(0, before.len() as int) == before
}

/// `FROM` scopes add tables and take none away: every table the query had
/// is still there, at the same place.
pub proof fn law_from_scopes_keep_tables(before: Seq<TableWithJoins>, after: Seq<TableWithJoins>)
    requires
        tables_kept(before, after),
    ensures
        forall|i: int| 0 <= i < before.len() ==> #[trigger] after[i] == before[i],
{
    assert forall|i: int| 0 <= i < before.len() implies #[trigger] after[i] == before[i] by {
        assert(after.subrange(0, before.len() as int)[i] == after[i]);
    }
}

/// Whether the `FROM` list `after` keeps the entries of `before`: the same
/// number of them (or one, when there were none), all but the last
/// unchanged (`JOIN` scopes add their joins to the last entry).
pub open spec fn joins_kept_tables(before: Seq<TableWithJoins>, after: Seq<TableWithJoins>) -> bool {
    if before.len() == 0 {
        after.len() <= 1
    } else {
        after.len() == before.len() && after.drop_last() == before.drop_last()
    }
}

/// `JOIN` scopes add no table and drop none: the `FROM` list keeps its
/// length, and every entry but the last (which the joins are added to)
/// stays as it was.
pub proof fn law_join_scopes_keep_tables(before: Seq<TableWithJoins>, after: Seq<TableWithJoins>)
    requires
        joins_kept_tables(before, after),
        before.len() > 0,
    ensures
        after.len() == before.len(),
        forall|i: int| 0 <= i < before.len() - 1 ==> #[trigger] after[i] == before[i],
{
    assert forall|i: int| 0 <= i < before.len() - 1 implies #[trigger] after[i] == before[i] by {
        assert(after.drop_last()[i] == before.drop_last()[i]);
    }
}

/// Adds the joins of `JOIN` scopes: to the last `FROM` entry, or, when there
/// is none, as a new entry (the scope's placeholder table with its joins).
fn add_join_scopes(from: &mut Vec<TableWithJoins>, group: &Vec<&ScopeDefinition>, db: Database) -> (r: Result<
    (),
    MacroError,
>)
    ensures
        r is Ok ==> all_accepted(entries_of(group@), db),
        first_not_select(entries_of(group@), db) < group@.len() ==> (r matches Err(e) && e.message@ == clause_error(
            "JOIN"@,
            entries_of(group@)[first_not_select(entries_of(group@), db) as int],
            db,
        )),
        first_not_select(entries_of(group@), db) >= group@.len() ==> r is Ok,
        joins_kept_tables(old(from)@, final(from)@),
{
    let ghost es = entries_of(group@);
    let ghost not_select = |e: ScopeEntry| !probe_is_select(e, db);
    let ghost start = from@;
    let mut i: usize = 0;
    while i < group.len()
        invariant
            start == old(from)@,
            joins_kept_tables(start, from@),
            i <= group@.len(),
            es == entries_of(group@),
            not_select == (|e: ScopeEntry| !probe_is_select(e, db)),
            all_accepted(entries_of(group@).subrange(0, i as int), db),
            forall|j: int| 0 <= j < i ==> !not_select(#[trigger] es[j]),
        decreases group@.len() - i,
    {
        proof {
            assert(es[i as int] == entry_of(*group@[i as int]));
        }
        let mut q = match clause_query(group[i], db, "JOIN") {
            Ok(q) => q,
            Err(e) => {
                proof { lemma_first_match(es, not_select, i as int); }
                return Err(e);
            },
        };
        let mut parsed = take_from(&mut q);
        if parsed.len() > 0 {
            let mut first = parsed.remove(0);
            let ghost mid = from@;
            match from.pop() {
                None => from.push(first),
                Some(mut last) => {
                    let mut joins = take_joins(&mut last);
                    let mut added = take_joins(&mut first);
                    joins.append(&mut added);
                    put_joins(&mut last, joins);
                    from.push(last);
                },
            }
            proof {
                if mid.len() > 0 {
                    assert(from@.drop_last() =~= mid.drop_last());
                }
            }
        }
        proof {
            let es = entries_of(group@);
            assert(es.subrange(0, i + 1) =~= es.subrange(0, i as int).push(es[i as int]));
        }
        i = i + 1;
    }
    proof {
        assert(entries_of(group@).subrange(0, group@.len() as int) =~= entries_of(group@));
        lemma_first_match(es, not_select, i as int);
    }
    Ok(())
}

/// `GROUP BY` clause `dest` with the clause `added` of a scope: the
/// expressions and modifiers appended when both list expressions (or both
/// are `ALL`), else `added` in its place.
fn merge_group_by(dest: GroupBy, added: GroupBy) -> (r: GroupBy)
    ensures
        match (added, dest) {
            (GroupBy::Expressions(e, m), GroupBy::Expressions(de, dm)) => r matches GroupBy::Expressions(re, rm)
                && re@ == de@ + e@ && rm@ == dm@ + m@,
            (GroupBy::Expressions(e, m), GroupBy::All(_)) => r matches GroupBy::Expressions(re, rm) && re@ == e@
                && rm@ == m@,
            (GroupBy::All(m), GroupBy::All(dm)) => r matches GroupBy::All(rm) && rm@ == dm@ + m@,
            (GroupBy::All(m), GroupBy::Expressions(_, _)) => r matches GroupBy::All(rm) && rm@ == m@,
        },
{
    match (added, dest) {
        (GroupBy::Expressions(mut e, mut m), GroupBy::Expressions(mut de, mut dm)) => {
            de.append(&mut e);
            dm.append(&mut m);
            GroupBy::Expressions(de, dm)
        },
        (GroupBy::Expressions(e, m), GroupBy::All(_)) => GroupBy::Expressions(e, m),
        (GroupBy::All(mut m), GroupBy::All(mut dm)) => {
            dm.append(&mut m);
            GroupBy::All(dm)
        },
        (GroupBy::All(m), GroupBy::Expressions(_, _)) => GroupBy::All(m),
    }
}

/// Adds the `GROUP BY` clauses of `GROUP BY` scopes to `group_by`.
fn add_group_by_scopes(group_by: GroupBy, group: &Vec<&ScopeDefinition>, db: Database) -> (r: Result<
    GroupBy,
    MacroError,
>)
    ensures
        r is Ok ==> all_accepted(entries_of(group@), db),
        first_not_select(entries_of(group@), db) < group@.len() ==> (r matches Err(e) && e.message@ == clause_error(
            "GROUP BY"@,
            entries_of(group@)[first_not_select(entries_of(group@), db) as int],
            db,
        )),
        first_not_select(entries_of(group@), db) >= group@.len() ==> r is Ok,
{
    let ghost es = entries_of(group@);
    let ghost not_select = |e: ScopeEntry| !probe_is_select(e, db);
    let mut acc = group_by;
    let mut i: usize = 0;
    while i < group.len()
        invariant
            i <= group@.len(),
            es == entries_of(group@),
            not_select == (|e: ScopeEntry| !probe_is_select(e, db)),
            all_accepted(entries_of(group@).subrange(0, i as int), db),
            forall|j: int| 0 <= j < i ==> !not_select(#[trigger] es[j]),
        decreases group@.len() - i,
    {
        proof {
            assert(es[i as int] == entry_of(*group@[i as int]));
        }
        let mut q = match clause_query(group[i], db, "GROUP BY") {
            Ok(q) => q,
            Err(e) => {
                proof { lemma_first_match(es, not_select, i as int); }
                return Err(e);
            },
        };
        let added = take_group_by(&mut q);
        acc = merge_group_by(acc, added);
        proof {
            let es = entries_of(group@);
            assert(es.subrange(0, i + 1) =~= es.subrange(0, i as int).push(es[i as int]));
        }
        i = i + 1;
    }
    proof {
        assert(entries_of(group@).subrange(0, group@.len() as int) =~= entries_of(group@));
        lemma_first_match(es, not_select, i as int);
    }
    Ok(acc)
}

/// Whether `m` is the error of the scope a group stopped at, for one of the
/// groups, in the order they are applied: a `WHERE`, `SELECT` or `HAVING`
/// scope (the first not taken, or one whose query gave no condition or
/// nothing to select), or the first `ORDER BY` scope not taken, or the first
/// `FROM`, `JOIN` or `GROUP BY` scope whose query is not a `SELECT`.
pub open spec fn scope_refusal(v: ScopeManagerView, db: Database, m: Seq<char>) -> bool {
    let w = active_for_spec(v, ScopeTarget::Where);
    let s = active_for_spec(v, ScopeTarget::Select);
    let o = active_for_spec(v, ScopeTarget::OrderBy);
    let f = active_for_spec(v, ScopeTarget::From);
    let j = active_for_spec(v, ScopeTarget::Join);
    let g = active_for_spec(v, ScopeTarget::GroupBy);
    let h = active_for_spec(v, ScopeTarget::Having);
    ||| exists|k: int| #[trigger] stops_at(w, db, k) && m == where_error(w[k], db, false)
    ||| exists|k: int| #[trigger] stops_at(s, db, k) && m == select_item_error(s[k], db)
    ||| first_refused(o, db) < o.len() && m == order_error(o[first_refused(o, db) as int], db)
    ||| first_not_select(f, db) < f.len() && m == clause_error("FROM"@, f[first_not_select(f, db) as int], db)
    ||| first_not_select(j, db) < j.len() && m == clause_error("JOIN"@, j[first_not_select(j, db) as int], db)
    ||| first_not_select(g, db) < g.len() && m == clause_error("GROUP BY"@, g[first_not_select(g, db) as int], db)
    ||| exists|k: int| #[trigger] stops_at(h, db, k) && m == where_error(h[k], db, true)
}

/// Appends `items` to the select list of `query`; gives the list it had
/// and the list it has now.
fn extend_projection(query: &mut Query, items: Vec<SelectItem>) -> (r: Ghost<(Seq<SelectItem>, Seq<SelectItem>)>)
    ensures
        projection_extended(r@.0, r@.1, items@),
{
    let mut projection = take_projection(query);
    let ghost before = projection@;
    let mut items = items;
    let ghost added = items@;
    projection.append(&mut items);
    let ghost after = projection@;
    put_projection(query, projection);
    Ghost((before, after))
}

/// Appends `exprs` to the `ORDER BY` of `query` (an `ORDER BY ALL`, or
/// none, gives way to them); gives the entries it had (`None` for `ALL` or
/// none) and the entries it has now.
fn extend_order_by(query: &mut Query, exprs: Vec<OrderByExpr>) -> (r: Ghost<(Option<Seq<OrderByExpr>>, Seq<OrderByExpr>)>)
    ensures
        order_by_extended(r@.0, r@.1, exprs@),
{
    let mut exprs = exprs;
    let ghost added = exprs@;
    let (clause, had, now) = match take_order_by(query) {
        Some(OrderByClause { kind: OrderKind::Expressions(mut existing), interpolate }) => {
            let ghost before = existing@;
            existing.append(&mut exprs);
            let ghost after = existing@;
            (OrderByClause { kind: OrderKind::Expressions(existing), interpolate }, Ghost(Some(before)), Ghost(after))
        },
        Some(OrderByClause { kind: OrderKind::All(_), interpolate }) => {
            let ghost after = exprs@;
            (OrderByClause { kind: OrderKind::Expressions(exprs), interpolate }, Ghost(None), Ghost(after))
        },
        None => {
            let ghost after = exprs@;
            (OrderByClause { kind: OrderKind::Expressions(exprs), interpolate: None }, Ghost(None), Ghost(after))
        },
    };
    put_order_by(query, Some(clause));
    Ghost((had@, now@))
}

/// Whether the `ORDER BY` entries `after` are the entries `before` (none
/// for `ALL` or no `ORDER BY`) with `exprs` appended.
pub open spec fn order_by_extended(before: Option<Seq<OrderByExpr>>, after: Seq<OrderByExpr>, exprs: Seq<OrderByExpr>) -> bool {
    after == match before {
        Some(b) => b + exprs,
        None => exprs,
    }
}

/// `ORDER BY` scopes sort within the query's own order: the query's own
/// entries stay first, in their order, and one entry per scope follows, in
/// order.
pub proof fn law_order_by_scopes_follow(
    before: Option<Seq<OrderByExpr>>,
    after: Seq<OrderByExpr>,
    exprs: Seq<OrderByExpr>,
)
    requires
        order_by_extended(before, after, exprs),
    ensures
        before matches Some(b) ==> after.len() == b.len() + exprs.len() && forall|i: int|
            0 <= i < b.len() ==> #[trigger] after[i] == b[i],
        after.len() >= exprs.len(),
        forall|j: int| 0 <= j < exprs.len() ==> #[trigger] after[after.len() - exprs.len() + j] == exprs[j],
{
}

/// Whether the select list `after` is `before` with `items` appended.
pub open spec fn projection_extended(before: Seq<SelectItem>, after: Seq<SelectItem>, items: Seq<SelectItem>) -> bool {
    after == before + items
}

/// `SELECT` scopes add to the select list and take nothing from it: the
/// query's own items stay first, in their order, and one item per scope
/// follows, in order.
pub proof fn law_select_scopes_keep_projection(
    before: Seq<SelectItem>,
    after: Seq<SelectItem>,
    items: Seq<SelectItem>,
)
    requires
        projection_extended(before, after, items),
    ensures
        after.len() == before.len() + items.len(),
        forall|i: int| 0 <= i < before.len() ==> #[trigger] after[i] == before[i],
        forall|j: int| 0 <= j < items.len() ==> #[trigger] after[before.len() + j] == items[j],
{
}

/// What applying the scopes did to a query, clause by clause: the `WHERE`
/// condition (whether the query had one, and the shape left), the select
/// list (before, after, and the number of items added), the `ORDER BY`
/// (its entries before, `None` for `ALL` or none, and after), the `FROM`
/// list (before, after the `FROM` scopes, after the `JOIN` scopes), and the
/// `HAVING` condition.
pub struct ScopeEdits {
    pub where_cond: Option<(bool, CondShape)>,
    pub projection: (Seq<SelectItem>, Seq<SelectItem>, nat),
    pub order_by: Option<(Option<Seq<OrderByExpr>>, Seq<OrderByExpr>)>,
    pub from: (Seq<TableWithJoins>, Seq<TableWithJoins>, Seq<TableWithJoins>),
    pub having_cond: Option<(bool, CondShape)>,
}

/// Whether `e` is what applying the active scopes of `v` does: the `WHERE`
/// (and `HAVING`) condition is the query's own ANDed with one condition per
/// scope of that clause, left alone when there is none; the select list
/// keeps its items and gains one per `SELECT` scope; the `ORDER BY` keeps
/// its entries and gains the scopes' after them, left alone without
/// `ORDER BY` scopes; the `FROM` list keeps its tables.
pub open spec fn scope_edits_made(v: ScopeManagerView, e: ScopeEdits) -> bool {
    let w = active_for_spec(v, ScopeTarget::Where);
    let sg = active_for_spec(v, ScopeTarget::Select);
    let og = active_for_spec(v, ScopeTarget::OrderBy);
    let hg = active_for_spec(v, ScopeTarget::Having);
    &&& (w.len() == 0 ==> e.where_cond is None)
    &&& (w.len() > 0 ==> (e.where_cond matches Some((had, shape)) && shape == conjoined_shape(had, w.len())))
    &&& e.projection.2 == sg.len()
    &&& projection_extended(e.projection.0, e.projection.1, e.projection.1.subrange(
        e.projection.0.len() as int,
        e.projection.1.len() as int,
    ))
    &&& e.projection.1.len() == e.projection.0.len() + e.projection.2
    &&& (og.len() == 0 ==> e.order_by is None)
    &&& (e.order_by matches Some((b, after)) ==> (exists|x: Seq<OrderByExpr>| #[trigger] order_by_extended(b, after, x)))
    &&& tables_kept(e.from.0, e.from.1)
    &&& joins_kept_tables(e.from.1, e.from.2)
    &&& (hg.len() == 0 ==> e.having_cond is None)
    &&& (hg.len() > 0 ==> (e.having_cond matches Some((had, shape)) && shape == conjoined_shape(had, hg.len())))
}

/// Applying scopes adds to a query and takes nothing from it: the select
/// list keeps its own items first and gains exactly one per `SELECT` scope;
/// the `WHERE` condition left holds of a row exactly when the query's own
/// condition (if it had one) and every `WHERE` scope's condition hold; the
/// `FROM` scopes keep the query's tables in place.
pub proof fn law_scopes_add_to_the_query(
    v: ScopeManagerView,
    e: ScopeEdits,
    existing: bool,
    scope: spec_fn(nat) -> bool,
)
    requires
        scope_edits_made(v, e),
    ensures
        e.projection.1.len() == e.projection.0.len() + active_for_spec(v, ScopeTarget::Select).len(),
        forall|i: int| 0 <= i < e.projection.0.len() ==> #[trigger] e.projection.1[i] == e.projection.0[i],
        active_for_spec(v, ScopeTarget::Where).len() > 0 ==> (e.where_cond matches Some((had, shape))
            && shape_holds(shape, existing, scope) == ((had ==> existing) && forall|k: nat|
            k < active_for_spec(v, ScopeTarget::Where).len() ==> #[trigger] scope(k))),
        forall|i: int| 0 <= i < e.from.0.len() ==> #[trigger] e.from.1[i] == e.from.0[i],
{
    let w = active_for_spec(v, ScopeTarget::Where);
    if w.len() > 0 {
        let (had, shape) = e.where_cond->0;
        law_scopes_conjoin(had, w.len(), existing, scope);
    }
    law_from_scopes_keep_tables(e.from.0, e.from.1);
    assert forall|i: int| 0 <= i < e.projection.0.len() implies #[trigger] e.projection.1[i] == e.projection.0[i] by {
        assert(e.projection.1 == e.projection.0 + e.projection.1.subrange(
            e.projection.0.len() as int,
            e.projection.1.len() as int,
        ));
    }
}

/// Every active scope is in the group of its target, so when each group is
/// accepted, every active scope is.
proof fn lemma_groups_cover(v: ScopeManagerView, db: Database)
    requires
        all_accepted(active_for_spec(v, ScopeTarget::Where), db),
        all_accepted(active_for_spec(v, ScopeTarget::Select), db),
        all_accepted(active_for_spec(v, ScopeTarget::OrderBy), db),
        all_accepted(active_for_spec(v, ScopeTarget::From), db),
        all_accepted(active_for_spec(v, ScopeTarget::Join), db),
        all_accepted(active_for_spec(v, ScopeTarget::GroupBy), db),
        all_accepted(active_for_spec(v, ScopeTarget::Having), db),
    ensures
        all_accepted(active_spec(v), db),
{
    let a = active_spec(v);
    assert forall|i: int| 0 <= i < a.len() implies probe_accepted(#[trigger] a[i], db) by {
        let t = a[i].2;
        a.lemma_filter_contains(has_target(t), i);
        let g = active_for_spec(v, t);
        assert(g.contains(a[i]));
        let j = choose|j: int| 0 <= j < g.len() && g[j] == a[i];
        assert(all_accepted(g, db));
        assert(probe_accepted(g[j], db));
    }
}

impl ScopeManager {
    /// The query `sql` with the active scopes applied (see the module's
    /// description), parsed and printed in the dialect of `db`. With no
    /// active scope, `sql` unchanged.
    pub fn apply_scopes_to_sql(&self, sql: &str, db: Database) -> (r: Result<String, MacroError>)
        ensures
            active_spec(self@).len() == 0 ==> (r matches Ok(s) && s@ == sql@),
            active_spec(self@).len() > 0 ==> match select_parse(sql@, db) {
                SelectParseKind::Failed(m) => (r matches Err(e) && e.message@ == m),
                SelectParseKind::Nothing => (r matches Err(e) && e.message@ == no_statement_message()),
                SelectParseKind::NotQuery => (r matches Err(e) && e.message@ == not_select_message()),
                SelectParseKind::NotSelect => (r matches Err(e) && e.message@ == not_select_message()),
                SelectParseKind::Select => (r is Ok ==> all_accepted(active_spec(self@), db)) && (r matches Err(e)
                    ==> scope_refusal(self@, db, e.message@)),
            },
    {
        if !self.has_active_scopes() {
            return Ok(string_of(sql));
        }
        let mut query = match parse_select(sql, db) {
            SelectParse::Failed(m) => return Err(MacroError::new(m)),
            SelectParse::Nothing => return Err(MacroError::new(string_of("Failed to parse SQL"))),
            SelectParse::NotQuery(_) => return Err(
                MacroError::new(string_of("Only SELECT queries support scope application")),
            ),
            SelectParse::NotSelect(_) => return Err(
                MacroError::new(string_of("Only SELECT queries support scope application")),
            ),
            SelectParse::Select(q) => q,
        };

        match self.apply_scopes_to_query(&mut query, db) {
            Ok(_) => Ok(render_query(&query)),
            Err(e) => Err(e),
        }
    }

    /// Applies the active scopes to a parsed `SELECT` query: each group in
    /// turn, as `ScopeEdits` records (see `scope_edits_made`).
    fn apply_scopes_to_query(&self, query: &mut Query, db: Database) -> (r: Result<Ghost<ScopeEdits>, MacroError>)
        ensures
            r is Ok ==> all_accepted(active_spec(self@), db),
            r matches Err(e) ==> scope_refusal(self@, db, e.message@),
            r matches Ok(edits) ==> scope_edits_made(self@, edits@),
    {
        let ghost w = active_for_spec(self@, ScopeTarget::Where);
        let ghost sg = active_for_spec(self@, ScopeTarget::Select);
        let ghost og = active_for_spec(self@, ScopeTarget::OrderBy);
        let ghost hg = active_for_spec(self@, ScopeTarget::Having);
        let query = query;
        let where_group = self.scopes_for_target(ScopeTarget::Where);
        let conds = match build_where_conditions(&where_group, db, false) {
            Ok(c) => c,
            Err(e) => return Err(e),
        };
        let ghost mut where_cond: Option<(bool, CondShape)> = None;
        if conds.len() > 0 {
            let made = conjoin_into(query, conds, false);
            proof { where_cond = Some(made@); }
        }

        let select_group = self.scopes_for_target(ScopeTarget::Select);
        let items = match scope_select_items(&select_group, db) {
            Ok(v) => v,
            Err(e) => return Err(e),
        };
        let ghost n_items = items@.len();
        let ghost items_v = items@;
        let projection = extend_projection(query, items);
        assert(projection@.1.subrange(projection@.0.len() as int, projection@.1.len() as int) =~= items_v);

        let order_group = self.scopes_for_target(ScopeTarget::OrderBy);
        proof {
            lemma_active_scopes(self@, ScopeTarget::OrderBy);
            assert forall|i: int| 0 <= i < order_group@.len() implies (#[trigger] order_group@[i]).target
                == ScopeTarget::OrderBy by {
                assert(entries_of(order_group@)[i] == entry_of(*order_group@[i]));
            }
        }
        let order_exprs = match build_order_by_expressions(&order_group, db) {
            Ok(v) => v,
            Err(e) => return Err(e),
        };
        let ghost mut order_by: Option<(Option<Seq<OrderByExpr>>, Seq<OrderByExpr>)> = None;
        let ghost oex = order_exprs@;
        if order_exprs.len() > 0 {
            let made = extend_order_by(query, order_exprs);
            proof {
                order_by = Some(made@);
                assert(order_by_extended(made@.0, made@.1, oex));
            }
        }

        let mut from = take_from(query);
        let ghost from_before = from@;
        let from_group = self.scopes_for_target(ScopeTarget::From);
        match add_from_scopes(&mut from, &from_group, db) {
            Ok(()) => {},
            Err(e) => return Err(e),
        }
        let join_group = self.scopes_for_target(ScopeTarget::Join);
        let ghost from_mid = from@;
        match add_join_scopes(&mut from, &join_group, db) {
            Ok(()) => {},
            Err(e) => return Err(e),
        }
        let ghost from_after = from@;
        put_from(query, from);

        let group_by = take_group_by(query);
        let group_by_group = self.scopes_for_target(ScopeTarget::GroupBy);
        let merged = match add_group_by_scopes(group_by, &group_by_group, db) {
            Ok(g) => g,
            Err(e) => return Err(e),
        };
        put_group_by(query, merged);

        let having_group = self.scopes_for_target(ScopeTarget::Having);
        let having = match build_where_conditions(&having_group, db, true) {
            Ok(c) => c,
            Err(e) => return Err(e),
        };
        let ghost mut having_cond: Option<(bool, CondShape)> = None;
        if having.len() > 0 {
            let made = conjoin_into(query, having, true);
            proof { having_cond = Some(made@); }
        }

        proof {
            lemma_groups_cover(self@, db);
        }
        Ok(Ghost(ScopeEdits {
            where_cond,
            projection: (projection@.0, projection@.1, n_items),
            order_by,
            from: (from_before, from_mid, from_after),
            having_cond,
        }))
    }
}

} // verus!
