//! The remaining kinds of generated query call, as plain values: plain
//! queries, queries whose rows are read into a struct or a tuple, and
//! streams; with the names and types of the arguments a generated method
//! passes on to the query.
use vstd::prelude::*;
use crate::analysis::{FetchMethod, QueryType, TypeAnalyzer, is_tuple_iterable_spec};
use crate::codegen::{FetchCallGenerator, ParamCall, param_call_spec, transform_spec};
use crate::database::Database;
use crate::dml::{DmlMethod, DmlParameter, first_type_arg_of, inner_type_spec, is_stream_spec};
use crate::error::MacroError;
use crate::plans::{
    InsertPlan, MultiRowInsertGenerator, TupleField, insert_plan_spec, opt_str_text, tuple_field, tuple_field_holds,
};
use crate::sqlx_syntax::{cast_scan, cleaned_spec, column_name_spec, extract_column_name, try_clean_sqlx_cast_syntax};
use crate::syntax::{PathArguments, PathSegment, TypeBound, TypeExpr, TypeView, first_match, lemma_first_match};
use crate::text::{decimal, ends_with, ends_with_spec, push_decimal, str_eq, string_of};
use crate::dynamic_sql::{quoted_debug, str_debug};

verus! {

// ---------------------------------------------------------------------
// The arguments passed on to the query
// ---------------------------------------------------------------------

/// Whether a parameter is bound to the query: neither the connection nor
/// the dynamic parameters.
pub open spec fn is_query_param(p: DmlParameter) -> bool {
    !p.is_pool && !p.is_dynamic_param
}

/// The names of the parameters bound to the query, in order.
pub open spec fn query_param_names(ps: Seq<DmlParameter>) -> Seq<Seq<char>>
    decreases ps.len(),
{
    if ps.len() == 0 {
        Seq::empty()
    } else if is_query_param(ps.last()) {
        query_param_names(ps.drop_last()).push(ps.last().name@)
    } else {
        query_param_names(ps.drop_last())
    }
}

/// The contents of a list of strings.
pub open spec fn strings_view(v: Seq<String>) -> Seq<Seq<char>> {
    v.map_values(|s: String| s@)
}

/// Whether a parameter may carry the rows of a multi-row insert: a bound
/// parameter that yields tuples.
pub open spec fn is_tuple_source(p: DmlParameter, m: DmlMethod) -> bool {
    is_query_param(p) && is_tuple_iterable_spec(p.type_, m.generics)
}

/// Whether the arguments of a method that changes data are decorated.
pub open spec fn decorates(m: DmlMethod, p: DmlParameter) -> bool {
    m.kind.is_data_modification_spec() && is_query_param(p)
}

/// The names and types a generated method hands to its query.
pub struct MethodSignatureGenerator;

impl MethodSignatureGenerator {
    /// The names of the parameters bound to the query, in order.
    pub fn generate_param_names(method: &DmlMethod) -> (r: Vec<String>)
        ensures
            strings_view(r@) == query_param_names(method.parameters@),
    {
        let ghost ps = method.parameters@;
        let mut out: Vec<String> = Vec::new();
        let mut i: usize = 0;
        while i < method.parameters.len()
            invariant
                i <= ps.len(),
                ps == method.parameters@,
                strings_view(out@) == query_param_names(ps.subrange(0, i as int)),
            decreases ps.len() - i,
        {
            let p = &method.parameters[i];
            proof {
                assert(ps.subrange(0, i + 1).drop_last() =~= ps.subrange(0, i as int));
                assert(ps.subrange(0, i + 1).last() == ps[i as int]);
            }
            if !p.is_pool && !p.is_dynamic_param {
                let ghost before = out@;
                out.push(p.name.clone());
                assert(strings_view(out@) =~= strings_view(before).push(p.name@));
            }
            i = i + 1;
        }
        assert(ps.subrange(0, ps.len() as int) =~= ps);
        out
    }

    /// The parameter that carries the rows of a multi-row insert: the first
    /// bound parameter that yields tuples.
    pub fn detect_tuple_multi_insert_param(method: &DmlMethod) -> (r: Option<&DmlParameter>)
        ensures
            ({
                let k = first_match(method.parameters@, |p: DmlParameter| is_tuple_source(p, *method));
                &&& k < method.parameters@.len() ==> (r matches Some(p) && *p == method.parameters@[k as int])
                &&& k >= method.parameters@.len() ==> r is None
            }),
    {
        let ghost ps = method.parameters@;
        let ghost pred = |p: DmlParameter| is_tuple_source(p, *method);
        let mut i: usize = 0;
        while i < method.parameters.len()
            invariant
                i <= ps.len(),
                ps == method.parameters@,
                pred == (|p: DmlParameter| is_tuple_source(p, *method)),
                forall|j: int| 0 <= j < i ==> !pred(#[trigger] ps[j]),
            decreases ps.len() - i,
        {
            let p = &method.parameters[i];
            if !p.is_pool && !p.is_dynamic_param && TypeAnalyzer::is_tuple_iterable_type(&p.type_, &method.generics) {
                proof { lemma_first_match(ps, pred, i as int); }
                return Some(p);
            }
            i = i + 1;
        }
        proof { lemma_first_match(ps, pred, i as int); }
        None
    }

    /// Each parameter with the type the query method declares for it: for
    /// a method that changes data, the bound parameters are decorated (see
    /// `transform_spec`); the others keep their type.
    pub fn generate_query_method_params(method: &DmlMethod, db: Database) -> (r: Vec<(String, TypeExpr)>)
        ensures
            r@.len() == method.parameters@.len(),
            forall|i: int|
                0 <= i < r@.len() ==> {
                    let p = method.parameters@[i];
                    &&& (#[trigger] r@[i]).0@ == p.name@
                    &&& r@[i].1@ == transform_spec(
                        p.type_,
                        decorates(*method, p),
                        method.is_json_query,
                        method.generics,
                        db,
                    )
                },
    {
        let needs_decoration = method.is_data_modification();
        let ghost ps = method.parameters@;
        let mut out: Vec<(String, TypeExpr)> = Vec::new();
        let mut i: usize = 0;
        while i < method.parameters.len()
            invariant
                i <= ps.len(),
                ps == method.parameters@,
                needs_decoration == method.kind.is_data_modification_spec(),
                out@.len() == i,
                forall|j: int|
                    0 <= j < i ==> {
                        let p = ps[j];
                        &&& (#[trigger] out@[j]).0@ == p.name@
                        &&& out@[j].1@ == transform_spec(
                            p.type_,
                            decorates(*method, p),
                            method.is_json_query,
                            method.generics,
                            db,
                        )
                    },
            decreases ps.len() - i,
        {
            let p = &method.parameters[i];
            let should_transform = needs_decoration && !p.is_pool && !p.is_dynamic_param;
            let t = FetchCallGenerator::transform_param_type(&p.type_, should_transform, method, db);
            out.push((p.name.clone(), t));
            i = i + 1;
        }
        out
    }

    /// Each parameter with how it is passed on to the query: for a method
    /// that changes data, the bound parameters are decorated (see
    /// `param_call_spec`).
    pub fn generate_all_param_names(method: &DmlMethod, db: Database) -> (r: Vec<(String, ParamCall)>)
        ensures
            r@.len() == method.parameters@.len(),
            forall|i: int|
                0 <= i < r@.len() ==> {
                    let p = method.parameters@[i];
                    &&& (#[trigger] r@[i]).0@ == p.name@
                    &&& r@[i].1 == param_call_spec(
                        p.type_,
                        decorates(*method, p),
                        method.is_json_query,
                        method.generics,
                        db,
                    )
                },
    {
        let needs_decoration = method.is_data_modification();
        let ghost ps = method.parameters@;
        let mut out: Vec<(String, ParamCall)> = Vec::new();
        let mut i: usize = 0;
        while i < method.parameters.len()
            invariant
                i <= ps.len(),
                ps == method.parameters@,
                needs_decoration == method.kind.is_data_modification_spec(),
                out@.len() == i,
                forall|j: int|
                    0 <= j < i ==> {
                        let p = ps[j];
                        &&& (#[trigger] out@[j]).0@ == p.name@
                        &&& out@[j].1 == param_call_spec(
                            p.type_,
                            decorates(*method, p),
                            method.is_json_query,
                            method.generics,
                            db,
                        )
                    },
            decreases ps.len() - i,
        {
            let p = &method.parameters[i];
            let should_transform = needs_decoration && !p.is_pool && !p.is_dynamic_param;
            let c = FetchCallGenerator::transform_param_call(&p.type_, should_transform, method, db);
            out.push((p.name.clone(), c));
            i = i + 1;
        }
        out
    }
}

// ---------------------------------------------------------------------
// The call of a query
// ---------------------------------------------------------------------

/// How a query's SQL is run: checked by the query macro at compile time,
/// with the SQL as written, or prepared at run time from the SQL without
/// type-override syntax; and the arguments bound, in order.
#[derive(Debug)]
pub struct QueryCall {
    pub checked: bool,
    pub sql: String,
    pub binds: Vec<String>,
}

/// The abstract content of a query call.
pub struct QueryCallView {
    pub checked: bool,
    pub sql: Seq<char>,
    pub binds: Seq<Seq<char>>,
}

impl View for QueryCall {
    type V = QueryCallView;

    open spec fn view(&self) -> QueryCallView {
        QueryCallView { checked: self.checked, sql: self.sql@, binds: strings_view(self.binds@) }
    }
}

/// The call of a method's query, or the matcher's error when the SQL
/// cannot be scanned for type-override syntax.
pub open spec fn query_call_spec(m: DmlMethod) -> Result<QueryCallView, Seq<char>> {
    match cast_scan(m.sql_content@) {
        Err(e) => Err(e),
        Ok((segs, tail)) => Ok(
            QueryCallView {
                checked: !m.is_unchecked,
                sql: if m.is_unchecked { cleaned_spec(segs, tail) } else { m.sql_content@ },
                binds: query_param_names(m.parameters@),
            },
        ),
    }
}

/// Whether `r` is what `query_call_spec` gives for `m`.
pub open spec fn call_matches(r: Result<QueryCall, MacroError>, m: DmlMethod) -> bool {
    match query_call_spec(m) {
        Ok(v) => (r matches Ok(c) && c@ == v),
        Err(msg) => (r matches Err(e) && e.message@ == msg),
    }
}

/// The call of a method's query (see `query_call_spec`).
fn query_call(method: &DmlMethod) -> (r: Result<QueryCall, MacroError>)
    ensures
        call_matches(r, *method),
{
    let cleaned = match try_clean_sqlx_cast_syntax(method.sql_content.as_str()) {
        Ok(c) => c,
        Err(m) => return Err(MacroError::new(m)),
    };
    let binds = MethodSignatureGenerator::generate_param_names(method);
    let sql = if method.is_unchecked {
        cleaned
    } else {
        method.sql_content.clone()
    };
    Ok(QueryCall { checked: !method.is_unchecked, sql, binds })
}

/// Plain queries, whose result reaches the caller as `()`.
pub struct QueryGenerator;

impl QueryGenerator {
    /// The call of a plain query: the result is discarded whether the query
    /// is checked or not (see `query_call_spec`).
    pub fn generate(method: &DmlMethod) -> (r: Result<QueryCall, MacroError>)
        ensures
            call_matches(r, *method),
    {
        query_call(method)
    }
}

// ---------------------------------------------------------------------
// Rows read into a struct or a tuple
// ---------------------------------------------------------------------

/// The row type of a method's return type (`()` without one).
pub open spec fn row_type_view(output: Option<TypeExpr>) -> TypeView {
    match output {
        Some(t) => inner_type_spec(t)@,
        None => TypeView::Tuple(Seq::empty()),
    }
}

/// The type a tuple row is read as: the first type argument of the row
/// type, or the row type itself.
pub open spec fn tuple_row_view(output: Option<TypeExpr>) -> TypeView {
    match output {
        Some(t) => match first_type_arg_of(inner_type_spec(t)) {
            Some(x) => x@,
            None => inner_type_spec(t)@,
        },
        None => TypeView::Tuple(Seq::empty()),
    }
}

/// Whether a path, as written, ends in `QueryResult` (its last segment has
/// no arguments and its name ends so).
pub open spec fn path_ends_query_result(segs: Seq<PathSegment>) -> bool {
    segs.len() > 0 && segs.last().arguments is Bare && ends_with_spec(segs.last().ident@, "QueryResult"@)
}

/// Whether a type, as written, ends in `QueryResult`: a path that does,
/// a reference to such a type, or `impl` whose last bound is such a path.
pub open spec fn names_query_result(t: TypeExpr) -> bool
    decreases t,
{
    match t {
        TypeExpr::Path(segs) => path_ends_query_result(segs@),
        TypeExpr::Reference(_, inner) => names_query_result(*inner),
        TypeExpr::ImplTrait(bounds) => bounds@.len() > 0 && (bounds@.last() matches TypeBound::Trait(p)
            && path_ends_query_result(p@)),
        _ => false,
    }
}

/// Whether a path, as written, ends in `QueryResult`.
fn path_ends_query_result_exec(segs: &Vec<PathSegment>) -> (r: bool)
    ensures
        r == path_ends_query_result(segs@),
{
    if segs.len() == 0 {
        return false;
    }
    let last = &segs[segs.len() - 1];
    match &last.arguments {
        PathArguments::Bare => ends_with(last.ident.as_str(), "QueryResult"),
        _ => false,
    }
}

/// Whether a type, as written, ends in `QueryResult`.
fn names_query_result_exec(t: &TypeExpr) -> (r: bool)
    ensures
        r == names_query_result(*t),
    decreases t,
{
    match t {
        TypeExpr::Path(segs) => path_ends_query_result_exec(segs),
        TypeExpr::Reference(_, inner) => names_query_result_exec(inner),
        TypeExpr::ImplTrait(bounds) => {
            if bounds.len() == 0 {
                false
            } else {
                match &bounds[bounds.len() - 1] {
                    TypeBound::Trait(p) => path_ends_query_result_exec(p),
                    _ => false,
                }
            }
        },
        _ => false,
    }
}

/// How rows are read into a struct: checked with `query_as!`; unchecked,
/// `query` for a `..QueryResult` type and `query_as` otherwise.
#[derive(Debug, Clone, Copy, PartialEq, Eq, Structural)]
pub enum StructQueryForm {
    Checked,
    UncheckedQuery,
    UncheckedQueryAs,
}

/// The call of a query whose rows are read into `row_type`.
#[derive(Debug)]
pub struct StructQueryPlan {
    pub form: StructQueryForm,
    pub row_type: TypeExpr,
    pub call: QueryCall,
}

/// The message for a method whose rows are tuples but whose statement was
/// not analysed.
pub open spec fn statement_unavailable_message() -> Seq<char> {
    "SQL statement not available"@
}

/// The strings of a list in `Debug` form (quoted, escaped), separated by
/// `, `.
pub open spec fn quoted_list(items: Seq<Seq<char>>) -> Seq<char>
    decreases items.len(),
{
    if items.len() == 0 {
        Seq::empty()
    } else if items.len() == 1 {
        str_debug(items[0])
    } else {
        quoted_list(items.drop_last()) + ", "@ + str_debug(items.last())
    }
}

/// What `std`'s `Debug` writes for a list of strings: `["a", "b"]`.
pub open spec fn debug_string_list(items: Seq<Seq<char>>) -> Seq<char> {
    "["@ + quoted_list(items) + "]"@
}

/// The list written as `std`'s `Debug` writes it (see `debug_string_list`).
fn debug_strings(items: &Vec<String>) -> (r: String)
    ensures
        r@ == debug_string_list(strings_view(items@)),
{
    let ghost v = strings_view(items@);
    let mut out = string_of("[");
    let mut i: usize = 0;
    while i < items.len()
        invariant
            i <= items@.len(),
            v == strings_view(items@),
            v.len() == items@.len(),
            out@ == "["@ + quoted_list(v.subrange(0, i as int)),
        decreases items@.len() - i,
    {
        let ghost before = out@;
        if i > 0 {
            out.append(", ");
        }
        let q = quoted_debug(items[i].as_str());
        out.append(q.as_str());
        proof {
            let p = v.subrange(0, i + 1);
            assert(p.drop_last() =~= v.subrange(0, i as int));
            assert(p.last() == items@[i as int]@);
            if i == 0 {
                assert(quoted_list(v.subrange(0, 0)) =~= Seq::<char>::empty());
                assert(out@ =~= "["@ + quoted_list(p));
            } else {
                assert(out@ =~= "["@ + (quoted_list(p.drop_last()) + ", "@ + str_debug(p.last())));
            }
        }
        i = i + 1;
    }
    out.append("]");
    assert(v.subrange(0, v.len() as int) =~= v);
    out
}

/// The message for a tuple whose size is not the number of columns.
pub open spec fn tuple_mismatch_message(elements: nat, columns: Seq<Seq<char>>) -> Seq<char> {
    "Tuple has "@ + decimal(elements) + " elements but SQL query returns "@ + decimal(columns.len())
        + " columns. Columns found: "@ + debug_string_list(columns)
}

/// The name the fetched rows are bound to before they are converted.
pub open spec fn result_var_spec(fetch: FetchMethod) -> Seq<char> {
    match fetch {
        FetchMethod::FetchAll => "rows"@,
        FetchMethod::FetchOne => "row"@,
        FetchMethod::FetchOptional => "row_option"@,
        FetchMethod::Execute => "result"@,
        FetchMethod::Fetch => "stream"@,
    }
}

/// The call of a query whose rows are tuples: the tuple's element types,
/// the field of the row struct for each column, the fetch method and the
/// name the fetched rows are bound to.
#[derive(Debug)]
pub struct TupleQueryPlan {
    pub tuple_types: Vec<TypeExpr>,
    pub fields: Vec<TupleField>,
    pub fetch: FetchMethod,
    pub result_var: String,
    pub call: QueryCall,
}

/// Whether `fields` are the row-struct fields for `columns` read into the
/// tuple elements `types`, one per column.
pub open spec fn fields_hold(fields: Seq<TupleField>, columns: Seq<String>, types: Seq<TypeExpr>, db: Database) -> bool {
    &&& fields.len() == columns.len()
    &&& forall|i: int| 0 <= i < fields.len() ==> tuple_field_holds(#[trigger] fields[i], columns[i]@, types[i], db)
}

/// The row structs of tuple queries and how their rows become tuples.
pub struct TupleConversionGenerator;

impl TupleConversionGenerator {
    /// The row-struct field for each column, read into the tuple element at
    /// the same position.
    pub fn generate_struct_fields(columns: &Vec<String>, tuple_types: &Vec<TypeExpr>, db: Database) -> (r: Vec<
        TupleField,
    >)
        requires
            columns@.len() <= tuple_types@.len(),
        ensures
            fields_hold(r@, columns@, tuple_types@, db),
    {
        let mut out: Vec<TupleField> = Vec::new();
        let mut i: usize = 0;
        while i < columns.len()
            invariant
                i <= columns@.len(),
                columns@.len() <= tuple_types@.len(),
                out@.len() == i,
                forall|j: int|
                    0 <= j < i ==> tuple_field_holds(#[trigger] out@[j], columns@[j]@, tuple_types@[j], db),
            decreases columns@.len() - i,
        {
            out.push(tuple_field(columns[i].as_str(), &tuple_types[i], db));
            i = i + 1;
        }
        out
    }

    /// The name the fetched rows are bound to.
    pub fn generate_for_fetch(fetch_method: FetchMethod) -> (r: String)
        ensures
            r@ == result_var_spec(fetch_method),
    {
        match fetch_method {
            FetchMethod::FetchAll => string_of("rows"),
            FetchMethod::FetchOne => string_of("row"),
            FetchMethod::FetchOptional => string_of("row_option"),
            FetchMethod::Execute => string_of("result"),
            FetchMethod::Fetch => string_of("stream"),
        }
    }
}

/// The call of a typed query: rows read into tuples or into a struct.
#[derive(Debug)]
pub enum QueryAsPlan {
    Tuple(TupleQueryPlan),
    Struct(StructQueryPlan),
}

/// Whether `r` is the call of a tuple query of `m`: the error for a row
/// type that is not a tuple, for a missing statement, for a tuple whose size
/// is not the number of columns, or for SQL that cannot be scanned;
/// otherwise the plan.
pub open spec fn tuple_query_holds(
    r: Result<TupleQueryPlan, MacroError>,
    m: DmlMethod,
    columns: Option<Seq<Seq<char>>>,
    fetch: FetchMethod,
    db: Database,
) -> bool {
    match tuple_row_view(m.output) {
        TypeView::Tuple(elems) => match columns {
            None => (r matches Err(e) && e.message@ == statement_unavailable_message()),
            Some(cols) => if cols.len() != elems.len() {
                (r matches Err(e) && e.message@ == tuple_mismatch_message(elems.len(), cols))
            } else {
                match query_call_spec(m) {
                    Err(msg) => (r matches Err(e) && e.message@ == msg),
                    Ok(c) => (r matches Ok(p) && {
                        &&& p.call@ == c
                        &&& p.fetch == fetch
                        &&& p.result_var@ == result_var_spec(fetch)
                        &&& p.tuple_types@.map_values(|t: TypeExpr| t@) == elems
                        &&& p.fields@.len() == cols.len()
                        &&& forall|i: int|
                            0 <= i < p.fields@.len() ==> tuple_field_holds(
                                #[trigger] p.fields@[i],
                                cols[i],
                                p.tuple_types@[i],
                                db,
                            )
                    }),
                }
            },
        },
        _ => (r matches Err(e) && e.message@ == "Expected tuple type"@),
    }
}

/// Whether `r` is the call of a struct query of `m`: the scanner's error,
/// or the plan (checked; unchecked as a plain query for a `..QueryResult`
/// type, as a typed query otherwise).
pub open spec fn struct_query_holds(r: Result<StructQueryPlan, MacroError>, m: DmlMethod) -> bool {
    match query_call_spec(m) {
        Err(msg) => (r matches Err(e) && e.message@ == msg),
        Ok(c) => (r matches Ok(p) && {
            &&& p.call@ == c
            &&& p.row_type@ == row_type_view(m.output)
            &&& p.form == (if !m.is_unchecked {
                StructQueryForm::Checked
            } else if names_query_result(p.row_type) {
                StructQueryForm::UncheckedQuery
            } else {
                StructQueryForm::UncheckedQueryAs
            })
        }),
    }
}

/// Typed queries.
pub struct QueryAsGenerator;

impl QueryAsGenerator {
    /// The call of a typed query: tuple rows when the row type is a tuple
    /// (see `generate_tuple_query`), struct rows otherwise (see
    /// `generate_struct_query`).
    pub fn generate(method: &DmlMethod, columns: Option<&Vec<String>>, fetch: FetchMethod, db: Database) -> (r:
        Result<QueryAsPlan, MacroError>)
        ensures
            tuple_row_view(method.output) is Tuple ==> match r {
                Ok(QueryAsPlan::Tuple(p)) => tuple_query_holds(Ok(p), *method, opt_strings(columns), fetch, db),
                Ok(QueryAsPlan::Struct(_)) => false,
                Err(e) => tuple_query_holds(Err(e), *method, opt_strings(columns), fetch, db),
            },
            !(tuple_row_view(method.output) is Tuple) ==> match r {
                Ok(QueryAsPlan::Struct(p)) => struct_query_holds(Ok(p), *method),
                Ok(QueryAsPlan::Tuple(_)) => false,
                Err(e) => struct_query_holds(Err(e), *method),
            },
    {
        if method.is_tuple_type() {
            match Self::generate_tuple_query(method, columns, fetch, db) {
                Ok(p) => Ok(QueryAsPlan::Tuple(p)),
                Err(e) => Err(e),
            }
        } else {
            match Self::generate_struct_query(method) {
                Ok(p) => Ok(QueryAsPlan::Struct(p)),
                Err(e) => Err(e),
            }
        }
    }

    /// The call of a query whose rows are tuples. `columns` are the result
    /// columns the statement analysis found (`None` when no statement is
    /// available).
    pub fn generate_tuple_query(method: &DmlMethod, columns: Option<&Vec<String>>, fetch: FetchMethod, db: Database) -> (r:
        Result<TupleQueryPlan, MacroError>)
        ensures
            tuple_query_holds(r, *method, opt_strings(columns), fetch, db),
    {
        let tuple_types = match method.parse_tuple_types() {
            Ok(t) => t,
            Err(e) => return Err(e),
        };
        let cols = match columns {
            Some(c) => c,
            None => return Err(MacroError::new(string_of("SQL statement not available"))),
        };
        if cols.len() != tuple_types.len() {
            let mut m = string_of("Tuple has ");
            push_decimal(&mut m, tuple_types.len());
            m.append(" elements but SQL query returns ");
            push_decimal(&mut m, cols.len());
            m.append(" columns. Columns found: ");
            let found = debug_strings(cols);
            m.append(found.as_str());
            return Err(MacroError::new(m));
        }
        let fields = TupleConversionGenerator::generate_struct_fields(cols, &tuple_types, db);
        let result_var = TupleConversionGenerator::generate_for_fetch(fetch);
        let call = match query_call(method) {
            Ok(c) => c,
            Err(e) => return Err(e),
        };
        Ok(TupleQueryPlan { tuple_types, fields, fetch, result_var, call })
    }

    /// The call of a query whose rows are read into the row type: checked
    /// with the query macro, or, unchecked, as a plain query for a
    /// `..QueryResult` type and as a typed query otherwise.
    pub fn generate_struct_query(method: &DmlMethod) -> (r: Result<StructQueryPlan, MacroError>)
        ensures
            struct_query_holds(r, *method),
    {
        let row_type = method.get_return_inner_type();
        let call = match query_call(method) {
            Ok(c) => c,
            Err(e) => return Err(e),
        };
        let form = if !method.is_unchecked {
            StructQueryForm::Checked
        } else if names_query_result_exec(&row_type) {
            StructQueryForm::UncheckedQuery
        } else {
            StructQueryForm::UncheckedQueryAs
        };
        Ok(StructQueryPlan { form, row_type, call })
    }
}

// ---------------------------------------------------------------------
// Streams
// ---------------------------------------------------------------------

/// What the rows of a stream are read as: tuples, single values, or a
/// struct.
#[derive(Debug, Clone, Copy, PartialEq, Eq, Structural)]
pub enum StreamShape {
    Tuple,
    Scalar,
    Struct,
}

/// The call of a streaming query: how its rows are read and into which
/// type (for tuples, the element types and the row-struct field of each
/// column); whether the SQL as written is checked at compile time; the SQL
/// without type-override syntax that runs; and the arguments bound, in
/// order.
#[derive(Debug)]
pub struct StreamPlan {
    pub shape: StreamShape,
    pub data_type: TypeExpr,
    pub tuple_types: Vec<TypeExpr>,
    pub fields: Vec<TupleField>,
    pub compile_check: bool,
    pub cleaned_sql: String,
    pub binds: Vec<String>,
}

/// The type each item of a stream carries: the ok type (`T` of the
/// stream's `Result<T, E>`), else the row type.
pub open spec fn stream_data_view(output: Option<TypeExpr>) -> TypeView {
    match output {
        Some(t) => match (if is_stream_spec(t) {
            first_type_arg_of(inner_type_spec(t))
        } else {
            first_type_arg_of(t)
        }) {
            Some(x) => x@,
            None => inner_type_spec(t)@,
        },
        None => TypeView::Tuple(Seq::empty()),
    }
}

/// What every stream plan of `m` has, once the SQL was scanned.
pub open spec fn stream_common(p: StreamPlan, m: DmlMethod, cleaned: Seq<char>) -> bool {
    &&& p.data_type@ == stream_data_view(m.output)
    &&& p.compile_check == !m.is_unchecked
    &&& p.cleaned_sql@ == cleaned
    &&& strings_view(p.binds@) == query_param_names(m.parameters@)
}

/// Streaming queries.
pub struct StreamGenerator;

impl StreamGenerator {
    /// The call of a streaming query. `query_type` is the method's query
    /// macro; `columns` the result columns the statement analysis found
    /// (`None` when no statement is available), at most one per tuple
    /// element.
    pub fn generate(method: &DmlMethod, query_type: QueryType, columns: Option<&Vec<String>>, db: Database) -> (r:
        Result<StreamPlan, MacroError>)
        requires
            tuple_row_view(method.output) matches TypeView::Tuple(elems) && columns matches Some(cols) ==> cols@.len()
                <= elems.len(),
        ensures
            match cast_scan(method.sql_content@) {
                Err(m) => (r matches Err(e) && e.message@ == m),
                Ok((segs, tail)) => match tuple_row_view(method.output) {
                    TypeView::Tuple(elems) => match columns {
                        None => (r matches Err(e) && e.message@ == statement_unavailable_message()),
                        Some(cols) => (r matches Ok(p) && {
                            &&& p.shape == StreamShape::Tuple
                            &&& p.tuple_types@.map_values(|t: TypeExpr| t@) == elems
                            &&& fields_hold(p.fields@, cols@, p.tuple_types@, db)
                            &&& stream_common(p, *method, cleaned_spec(segs, tail))
                        }),
                    },
                    _ => (r matches Ok(p) && {
                        &&& p.shape == (if query_type is QueryScalar {
                            StreamShape::Scalar
                        } else {
                            StreamShape::Struct
                        })
                        &&& p.tuple_types@.len() == 0
                        &&& p.fields@.len() == 0
                        &&& stream_common(p, *method, cleaned_spec(segs, tail))
                    }),
                },
            },
    {
        let cleaned_sql = match try_clean_sqlx_cast_syntax(method.sql_content.as_str()) {
            Ok(c) => c,
            Err(m) => return Err(MacroError::new(m)),
        };
        let data_type = match method.get_ok_type() {
            Some(t) => t,
            None => method.get_return_inner_type(),
        };
        let binds = MethodSignatureGenerator::generate_param_names(method);
        let compile_check = !method.is_unchecked;
        if method.is_tuple_type() {
            let cols = match columns {
                Some(c) => c,
                None => return Err(MacroError::new(string_of("SQL statement not available"))),
            };
            let tuple_types = match method.parse_tuple_types() {
                Ok(t) => t,
                Err(e) => return Err(e),
            };
            let fields = TupleConversionGenerator::generate_struct_fields(cols, &tuple_types, db);
            Ok(StreamPlan {
                shape: StreamShape::Tuple,
                data_type,
                tuple_types,
                fields,
                compile_check,
                cleaned_sql,
                binds,
            })
        } else {
            let shape = match query_type {
                QueryType::QueryScalar => StreamShape::Scalar,
                _ => StreamShape::Struct,
            };
            Ok(StreamPlan {
                shape,
                data_type,
                tuple_types: Vec::new(),
                fields: Vec::new(),
                compile_check,
                cleaned_sql,
                binds,
            })
        }
    }
}

// ---------------------------------------------------------------------
// Multi-row inserts: the compile-time check and the whole call
// ---------------------------------------------------------------------

/// The query macro a multi-row insert is checked with at compile time, on
/// one row of default values: `query_scalar!`; `query_as!` into a row
/// struct whose fields are the columns' names with the tuple's element
/// types (tuple rows) or into the row type; or `query!`.
#[derive(Debug)]
pub enum ValidationForm {
    Scalar,
    TupleStruct(Vec<(String, TypeExpr)>),
    As(TypeExpr),
    Plain,
}

/// The abstract content of a validation form.
pub enum ValidationFormView {
    Scalar,
    TupleStruct(Seq<(Seq<char>, TypeView)>),
    As(TypeView),
    Plain,
}

/// The compile-time check of a multi-row insert: the element types of
/// the inserted tuples (one default-valued argument each) and the macro.
#[derive(Debug)]
pub struct ValidationPlan {
    pub tuple_types: Vec<TypeExpr>,
    pub form: ValidationForm,
}

/// The abstract content of a validation plan.
pub struct ValidationPlanView {
    pub tuple_types: Seq<TypeView>,
    pub form: ValidationFormView,
}

impl View for ValidationPlan {
    type V = ValidationPlanView;

    open spec fn view(&self) -> ValidationPlanView {
        ValidationPlanView {
            tuple_types: self.tuple_types@.map_values(|t: TypeExpr| t@),
            form: match self.form {
                ValidationForm::Scalar => ValidationFormView::Scalar,
                ValidationForm::TupleStruct(fs) => ValidationFormView::TupleStruct(
                    fs@.map_values(|f: (String, TypeExpr)| (f.0@, f.1@)),
                ),
                ValidationForm::As(t) => ValidationFormView::As(t@),
                ValidationForm::Plain => ValidationFormView::Plain,
            },
        }
    }
}

/// The contents of an optional list of strings.
pub open spec fn opt_strings(v: Option<&Vec<String>>) -> Option<Seq<Seq<char>>> {
    match v {
        Some(x) => Some(strings_view(x@)),
        None => None,
    }
}

/// The row-struct fields of a checked tuple query: each column's name with
/// the tuple element at its position, as far as both go.
pub open spec fn zipped_fields(columns: Seq<Seq<char>>, elems: Seq<TypeView>) -> Seq<(Seq<char>, TypeView)> {
    let n = if columns.len() <= elems.len() { columns.len() } else { elems.len() };
    Seq::new(n, |i: int| (column_name_spec(columns[i]), elems[i]))
}

/// The compile-time check of a multi-row insert through `p`.
pub open spec fn validation_spec(m: DmlMethod, p: DmlParameter, q: QueryType, columns: Option<Seq<Seq<char>>>) -> Result<
    ValidationPlanView,
    Seq<char>,
> {
    match crate::plans::tuple_types_spec(p.type_, m.generics) {
        Err(e) => Err(e),
        Ok(types) => match q {
            QueryType::QueryScalar => Ok(ValidationPlanView { tuple_types: types, form: ValidationFormView::Scalar }),
            QueryType::QueryAs => match tuple_row_view(m.output) {
                TypeView::Tuple(elems) => match columns {
                    None => Err(statement_unavailable_message()),
                    Some(cols) => Ok(
                        ValidationPlanView {
                            tuple_types: types,
                            form: ValidationFormView::TupleStruct(zipped_fields(cols, elems)),
                        },
                    ),
                },
                _ => Ok(ValidationPlanView { tuple_types: types, form: ValidationFormView::As(row_type_view(m.output)) }),
            },
            QueryType::Query => Ok(ValidationPlanView { tuple_types: types, form: ValidationFormView::Plain }),
        },
    }
}

/// The message for a multi-row insert without a parameter of tuples.
pub open spec fn no_tuple_param_message() -> Seq<char> {
    "Multi-insert requires a tuple parameter"@
}

impl MultiRowInsertGenerator {
    /// The row-struct fields of a checked tuple query.
    fn zip_fields(columns: &Vec<String>, elems: &Vec<TypeExpr>) -> (r: Vec<(String, TypeExpr)>)
        ensures
            r@.map_values(|f: (String, TypeExpr)| (f.0@, f.1@)) == zipped_fields(
                strings_view(columns@),
                elems@.map_values(|t: TypeExpr| t@),
            ),
    {
        let n = if columns.len() <= elems.len() {
            columns.len()
        } else {
            elems.len()
        };
        let ghost cv = strings_view(columns@);
        let ghost ev = elems@.map_values(|t: TypeExpr| t@);
        let mut out: Vec<(String, TypeExpr)> = Vec::new();
        let mut i: usize = 0;
        while i < n
            invariant
                i <= n,
                n <= columns@.len(),
                n <= elems@.len(),
                n == (if cv.len() <= ev.len() { cv.len() } else { ev.len() }),
                cv == strings_view(columns@),
                ev == elems@.map_values(|t: TypeExpr| t@),
                out@.len() == i,
                forall|j: int|
                    0 <= j < i ==> (#[trigger] out@[j]).0@ == column_name_spec(cv[j]) && out@[j].1@ == ev[j],
            decreases n - i,
        {
            let name = string_of(extract_column_name(columns[i].as_str()));
            out.push((name, elems[i].copy()));
            i = i + 1;
        }
        assert(out@.map_values(|f: (String, TypeExpr)| (f.0@, f.1@)) =~= zipped_fields(cv, ev));
        out
    }

    /// The compile-time check of a multi-row insert through `tuple_param`
    /// (see `validation_spec`). `columns` are the result columns the
    /// statement analysis found (`None` when no statement is available).
    pub fn generate_validation(
        method: &DmlMethod,
        tuple_param: &DmlParameter,
        query: QueryType,
        columns: Option<&Vec<String>>,
    ) -> (r: Result<ValidationPlan, MacroError>)
        ensures
            match validation_spec(*method, *tuple_param, query, opt_strings(columns)) {
                Ok(v) => (r matches Ok(p) && p@ == v),
                Err(m) => (r matches Err(e) && e.message@ == m),
            },
    {
        let tuple_types = match Self::get_tuple_types(&tuple_param.type_, method) {
            Ok(t) => t,
            Err(e) => return Err(e),
        };
        let form = match query {
            QueryType::QueryScalar => ValidationForm::Scalar,
            QueryType::QueryAs => {
                if method.is_tuple_type() {
                    let row = match method.parse_tuple_types() {
                        Ok(t) => t,
                        Err(e) => return Err(e),
                    };
                    let cols = match columns {
                        Some(c) => c,
                        None => return Err(MacroError::new(string_of("SQL statement not available"))),
                    };
                    ValidationForm::TupleStruct(Self::zip_fields(cols, &row))
                } else {
                    ValidationForm::As(method.get_return_inner_type())
                }
            },
            QueryType::Query => ValidationForm::Plain,
        };
        Ok(ValidationPlan { tuple_types, form })
    }

    /// The whole multi-row insert: the parameter of tuples (see
    /// `detect_tuple_multi_insert_param`), its compile-time check and the
    /// insert itself. The statement analysis gives `columns`,
    /// `has_complex_functions` and the `RETURNING` clause.
    pub fn generate(
        method: &DmlMethod,
        query: QueryType,
        fetch: FetchMethod,
        columns: Option<&Vec<String>>,
        has_complex_functions: bool,
        returning: Option<&str>,
    ) -> (r: Result<(ValidationPlan, InsertPlan), MacroError>)
        ensures
            ({
                let ps = method.parameters@;
                let k = first_match(ps, |p: DmlParameter| is_tuple_source(p, *method));
                if k >= ps.len() {
                    r matches Err(e) && e.message@ == no_tuple_param_message()
                } else {
                    match validation_spec(*method, ps[k as int], query, opt_strings(columns)) {
                        Err(m) => (r matches Err(e) && e.message@ == m),
                        Ok(v) => match insert_plan_spec(
                            *method,
                            ps[k as int],
                            query,
                            fetch,
                            has_complex_functions,
                            opt_str_text(returning),
                        ) {
                            Err(m) => (r matches Err(e) && e.message@ == m),
                            Ok(ip) => (r matches Ok((a, b)) && a@ == v && b@ == ip),
                        },
                    }
                }
            }),
    {
        let tuple_param = match MethodSignatureGenerator::detect_tuple_multi_insert_param(method) {
            Some(p) => p,
            None => return Err(MacroError::new(string_of("Multi-insert requires a tuple parameter"))),
        };
        let validation = match Self::generate_validation(method, tuple_param, query, columns) {
            Ok(v) => v,
            Err(e) => return Err(e),
        };
        let insert = match Self::generate_query_builder(
            method,
            tuple_param,
            query,
            fetch,
            has_complex_functions,
            returning,
        ) {
            Ok(p) => p,
            Err(e) => return Err(e),
        };
        Ok((validation, insert))
    }
}

// ---------------------------------------------------------------------
// The connection a query runs on
// ---------------------------------------------------------------------

/// How a connection parameter is handed to the query: `&mut **tx` for a
/// transaction, `&mut *conn` for a connection, as it is otherwise.
#[derive(Debug, Clone, Copy, PartialEq, Eq, Structural)]
pub enum DerefPattern {
    DoubleDeref,
    SingleDeref,
    NoDeref,
}

/// The deref pattern of a connection parameter's type: for `&mut` of a path
/// whose last segment is `Transaction`, or ends with `Connection`.
pub open spec fn deref_pattern_spec(t: TypeExpr) -> DerefPattern {
    match t {
        TypeExpr::Reference(true, inner) => match *inner {
            TypeExpr::Path(segs) => if segs@.len() == 0 {
                DerefPattern::NoDeref
            } else if segs@.last().ident@ == "Transaction"@ {
                DerefPattern::DoubleDeref
            } else if ends_with_spec(segs@.last().ident@, "Connection"@) {
                DerefPattern::SingleDeref
            } else {
                DerefPattern::NoDeref
            },
            _ => DerefPattern::NoDeref,
        },
        _ => DerefPattern::NoDeref,
    }
}

/// The deref pattern of a connection parameter's type.
pub fn get_deref_pattern(ty: &TypeExpr) -> (r: DerefPattern)
    ensures
        r == deref_pattern_spec(*ty),
{
    match ty {
        TypeExpr::Reference(true, inner) => match &**inner {
            TypeExpr::Path(segs) => {
                if segs.len() == 0 {
                    DerefPattern::NoDeref
                } else {
                    let name = segs[segs.len() - 1].ident.as_str();
                    if str_eq(name, "Transaction") {
                        DerefPattern::DoubleDeref
                    } else if ends_with(name, "Connection") {
                        DerefPattern::SingleDeref
                    } else {
                        DerefPattern::NoDeref
                    }
                }
            },
            _ => DerefPattern::NoDeref,
        },
        _ => DerefPattern::NoDeref,
    }
}

/// Where a query gets its connection: the method's first connection
/// parameter, handed over as its deref pattern says, or the repository's
/// own pool (`self.get_pool()`).
#[derive(Debug)]
pub enum PoolSource {
    Param(String, DerefPattern),
    Repository,
}

/// Where a method's query gets its connection (see `PoolSource`).
pub fn generate_pool_expr(method: &DmlMethod) -> (r: PoolSource)
    ensures
        ({
            let ps = method.parameters@;
            let k = first_match(ps, |p: DmlParameter| p.is_pool);
            &&& k < ps.len() ==> (r matches PoolSource::Param(n, d) && n@ == ps[k as int].name@ && d
                == deref_pattern_spec(ps[k as int].type_))
            &&& k >= ps.len() ==> r is Repository
        }),
{
    let ghost ps = method.parameters@;
    let mut i: usize = 0;
    while i < method.parameters.len()
        invariant
            i <= ps.len(),
            ps == method.parameters@,
            forall|j: int| 0 <= j < i ==> !(#[trigger] ps[j]).is_pool,
        decreases ps.len() - i,
    {
        let p = &method.parameters[i];
        if p.is_pool {
            proof { lemma_first_match(ps, |p: DmlParameter| p.is_pool, i as int); }
            return PoolSource::Param(p.name.clone(), get_deref_pattern(&p.type_));
        }
        i = i + 1;
    }
    proof { lemma_first_match(ps, |p: DmlParameter| p.is_pool, i as int); }
    PoolSource::Repository
}

} // verus!
