//! What the generated query code of a repository method is made of: the
//! decisions behind each kind of generated call (scalar queries, paginated
//! queries, multi-row inserts), as plain values. Writing the tokens of a
//! plan is left to the code that emits the method.
use vstd::prelude::*;
use crate::analysis::{
    FetchMethod, QueryType, ReturnTypeView, TypeAnalyzer, TypeCastingAnalyzer, analyze_spec, impl_into_spec,
    iterable_inner_spec, native_type_spec, option_inner_spec, where_tuple_spec,
};
use crate::database::Database;
use crate::dml::{DmlMethod, DmlParameter, first_type_arg_of, inner_type_spec, type_name_of};
use crate::error::MacroError;
use crate::sqlx_syntax::{
    cast_scan, cleaned_spec, column_name_spec, extract_column_name, first_index, has_explicit_sqlx_type,
    try_clean_sqlx_cast_syntax,
};
use crate::syntax::{Generics, TypeExpr, TypeView};
use crate::text::{decimal, find_char, seq_has, str_eq, string_of, push_decimal, trim_range, trim_spec};

verus! {

// ---------------------------------------------------------------------
// Multi-row inserts
// ---------------------------------------------------------------------

/// The item type of a multi-row insert parameter: the element type of an
/// iterable, else `T` of `impl Into<T>`, else, for a single-segment
/// generic parameter, the tuple its `where` clause gives it.
pub open spec fn insert_item_spec(t: TypeExpr, g: Generics) -> Option<TypeExpr> {
    match iterable_inner_spec(t) {
        Some(x) => Some(x),
        None => match impl_into_spec(t) {
            Some(x) => Some(x),
            None => match t {
                TypeExpr::Path(segs) => if segs@.len() == 1 { where_tuple_spec(g, segs@[0].ident@) } else { None },
                _ => None,
            },
        },
    }
}

/// The element types of the tuples a multi-row insert parameter yields, or
/// the error for a parameter that yields no tuples.
pub open spec fn tuple_types_spec(t: TypeExpr, g: Generics) -> Result<Seq<TypeView>, Seq<char>> {
    match insert_item_spec(t, g) {
        None => Err("Expected tuple parameter"@),
        Some(item) => match item {
            TypeExpr::Tuple(elems) => Ok(elems@.map_values(|e: TypeExpr| e@)),
            TypeExpr::Reference(_, inner) => match *inner {
                TypeExpr::Tuple(elems) => Ok(elems@.map_values(|e: TypeExpr| e@)),
                _ => Err("Expected tuple or reference to tuple"@),
            },
            _ => Err("Expected tuple type"@),
        },
    }
}

/// Whether the tuples are borrowed (the parameter or its item is a
/// reference), or the error for a parameter that yields no tuples.
pub open spec fn tuples_by_ref_spec(t: TypeExpr, g: Generics) -> Result<bool, Seq<char>> {
    if t is Reference {
        Ok(true)
    } else {
        match insert_item_spec(t, g) {
            None => Err("Expected tuple parameter"@),
            Some(item) => Ok(item is Reference),
        }
    }
}

/// What the generated code returns, before inserting, when there are no rows.
#[derive(Debug, Clone, Copy, PartialEq, Eq, Structural)]
pub enum EmptyReturn {
    /// No check: the parameter is generic, or one row is expected.
    NoCheck,
    /// `QueryResult::default()`.
    DefaultResult,
    /// An empty `Vec`.
    EmptyVec,
    /// `None`.
    NoneValue,
}

/// How the built insert query is run.
#[derive(Debug, Clone, Copy, PartialEq, Eq, Structural)]
pub enum InsertExecution {
    /// `execute` on the pool.
    Execute,
    /// `build_query_scalar` and the fetch call.
    Scalar,
    /// `build_query_as` and the fetch call.
    As,
    /// `build` and the fetch call.
    Plain,
}

/// The empty-input return of a multi-row insert.
pub open spec fn empty_return_spec(is_generic: bool, fetch: FetchMethod, query: QueryType) -> EmptyReturn {
    if is_generic {
        EmptyReturn::NoCheck
    } else {
        match fetch {
            FetchMethod::Execute => EmptyReturn::DefaultResult,
            FetchMethod::FetchAll => match query {
                QueryType::QueryScalar | QueryType::QueryAs => EmptyReturn::EmptyVec,
                _ => EmptyReturn::DefaultResult,
            },
            FetchMethod::FetchOne => EmptyReturn::NoCheck,
            FetchMethod::FetchOptional => EmptyReturn::NoneValue,
            FetchMethod::Fetch => EmptyReturn::DefaultResult,
        }
    }
}

/// How a multi-row insert is run.
pub open spec fn insert_execution_spec(fetch: FetchMethod, query: QueryType) -> InsertExecution {
    match fetch {
        FetchMethod::Execute => InsertExecution::Execute,
        _ => match query {
            QueryType::QueryScalar => InsertExecution::Scalar,
            QueryType::QueryAs => InsertExecution::As,
            QueryType::Query => InsertExecution::Plain,
        },
    }
}

/// The generated code of a multi-row insert: the rows come from the tuple
/// parameter `param_name`; each row binds its `arity` elements (borrowed
/// when `by_ref`); `returning` is the `RETURNING` clause to add, with the
/// type-override syntax removed.
#[derive(Debug)]
pub struct InsertPlan {
    pub param_name: String,
    pub arity: usize,
    pub by_ref: bool,
    pub empty_return: EmptyReturn,
    pub execution: InsertExecution,
    pub returning: Option<String>,
}

/// The abstract content of an insert plan.
pub struct InsertPlanView {
    pub param_name: Seq<char>,
    pub arity: nat,
    pub by_ref: bool,
    pub empty_return: EmptyReturn,
    pub execution: InsertExecution,
    pub returning: Option<Seq<char>>,
}

impl View for InsertPlan {
    type V = InsertPlanView;

    open spec fn view(&self) -> InsertPlanView {
        InsertPlanView {
            param_name: self.param_name@,
            arity: self.arity as nat,
            by_ref: self.by_ref,
            empty_return: self.empty_return,
            execution: self.execution,
            returning: match self.returning {
                Some(c) => Some(c@),
                None => None,
            },
        }
    }
}

/// The views of a list of types.
pub open spec fn type_views(ts: Seq<TypeExpr>) -> Seq<TypeView> {
    ts.map_values(|t: TypeExpr| t@)
}

/// The text of an optional string.
pub open spec fn opt_str_text(s: Option<&str>) -> Option<Seq<char>> {
    match s {
        Some(t) => Some(t@),
        None => None,
    }
}

/// The plan of a multi-row insert through `p`: refused when the inserted
/// values hold SQL functions; otherwise the parameter's name, the tuple
/// size, whether the tuples are borrowed, the empty-input return, how the
/// insert runs, and the `RETURNING` clause without type-override syntax.
pub open spec fn insert_plan_spec(
    m: DmlMethod,
    p: DmlParameter,
    query: QueryType,
    fetch: FetchMethod,
    has_complex_functions: bool,
    returning: Option<Seq<char>>,
) -> Result<InsertPlanView, Seq<char>> {
    if has_complex_functions {
        Err("SQL functions in VALUES clause not supported"@)
    } else {
        match tuple_types_spec(p.type_, m.generics) {
            Err(e) => Err(e),
            Ok(types) => match tuples_by_ref_spec(p.type_, m.generics) {
                Err(e) => Err(e),
                Ok(by_ref) => {
                    let clause = match returning {
                        Some(c) => match cast_scan(c) {
                            Err(e) => None,
                            Ok((segs, tail)) => Some(Some(cleaned_spec(segs, tail))),
                        },
                        None => Some(None),
                    };
                    match clause {
                        None => Err(cast_scan(returning->Some_0)->Err_0),
                        Some(c) => Ok(
                            InsertPlanView {
                                param_name: p.name@,
                                arity: types.len(),
                                by_ref,
                                empty_return: empty_return_spec(p.is_generic, fetch, query),
                                execution: insert_execution_spec(fetch, query),
                                returning: c,
                            },
                        ),
                    }
                },
            },
        }
    }
}

/// Decisions about multi-row inserts.
pub struct MultiRowInsertGenerator;

impl MultiRowInsertGenerator {
    /// The item type of a multi-row insert parameter (see `insert_item_spec`).
    fn insert_item<'a>(param_type: &'a TypeExpr, generics: &'a Generics) -> (r: Option<&'a TypeExpr>)
        ensures
            match insert_item_spec(*param_type, *generics) {
                Some(t) => r matches Some(x) && *x == t,
                None => r is None,
            },
    {
        if let Some(t) = TypeAnalyzer::get_iterable_inner_type(param_type) {
            return Some(t);
        }
        if let Some(t) = TypeAnalyzer::extract_impl_into_type(param_type) {
            return Some(t);
        }
        match param_type {
            TypeExpr::Path(segs) => {
                if segs.len() == 1 {
                    TypeAnalyzer::extract_tuple_from_where_clause(generics, segs[0].ident.as_str())
                } else {
                    None
                }
            },
            _ => None,
        }
    }

    /// Copies of the element types of a tuple.
    fn copy_elems(elems: &Vec<TypeExpr>) -> (r: Vec<TypeExpr>)
        ensures
            r@.map_values(|e: TypeExpr| e@) == elems@.map_values(|e: TypeExpr| e@),
    {
        let mut out: Vec<TypeExpr> = Vec::new();
        let mut i: usize = 0;
        while i < elems.len()
            invariant
                i <= elems@.len(),
                out@.len() == i,
                forall|j: int| 0 <= j < i ==> (#[trigger] out@[j])@ == elems@[j]@,
            decreases elems@.len() - i,
        {
            out.push(elems[i].copy());
            i = i + 1;
        }
        assert(out@.map_values(|e: TypeExpr| e@) =~= elems@.map_values(|e: TypeExpr| e@));
        out
    }

    /// The element types of the tuples a multi-row insert parameter yields.
    pub fn get_tuple_types(param_type: &TypeExpr, method: &DmlMethod) -> (r: Result<Vec<TypeExpr>, MacroError>)
        ensures
            match tuple_types_spec(*param_type, method.generics) {
                Ok(v) => (r matches Ok(x) && x@.map_values(|e: TypeExpr| e@) == v),
                Err(m) => (r matches Err(e) && e.message@ == m),
            },
    {
        let item = match Self::insert_item(param_type, method.generics()) {
            Some(t) => t,
            None => return Err(MacroError::new(string_of("Expected tuple parameter"))),
        };
        match item {
            TypeExpr::Tuple(elems) => Ok(Self::copy_elems(elems)),
            TypeExpr::Reference(_, inner) => match &**inner {
                TypeExpr::Tuple(elems) => Ok(Self::copy_elems(elems)),
                _ => Err(MacroError::new(string_of("Expected tuple or reference to tuple"))),
            },
            _ => Err(MacroError::new(string_of("Expected tuple type"))),
        }
    }

    /// Whether the rows of a multi-row insert are borrowed tuples.
    pub fn has_reference_in_tuple_items(param_type: &TypeExpr, method: &DmlMethod) -> (r: Result<bool, MacroError>)
        ensures
            match tuples_by_ref_spec(*param_type, method.generics) {
                Ok(b) => r == Ok::<bool, MacroError>(b),
                Err(m) => (r matches Err(e) && e.message@ == m),
            },
    {
        if let TypeExpr::Reference(_, _) = param_type {
            return Ok(true);
        }
        match Self::insert_item(param_type, method.generics()) {
            Some(TypeExpr::Reference(_, _)) => Ok(true),
            Some(_) => Ok(false),
            None => Err(MacroError::new(string_of("Expected tuple parameter"))),
        }
    }

    /// The empty-input return of a multi-row insert.
    pub fn empty_return(is_generic: bool, fetch: FetchMethod, query: QueryType) -> (r: EmptyReturn)
        ensures
            r == empty_return_spec(is_generic, fetch, query),
    {
        if is_generic {
            return EmptyReturn::NoCheck;
        }
        match fetch {
            FetchMethod::Execute => EmptyReturn::DefaultResult,
            FetchMethod::FetchAll => match query {
                QueryType::QueryScalar | QueryType::QueryAs => EmptyReturn::EmptyVec,
                _ => EmptyReturn::DefaultResult,
            },
            FetchMethod::FetchOne => EmptyReturn::NoCheck,
            FetchMethod::FetchOptional => EmptyReturn::NoneValue,
            FetchMethod::Fetch => EmptyReturn::DefaultResult,
        }
    }

    /// How a multi-row insert is run.
    pub fn build_execution(fetch: FetchMethod, query: QueryType) -> (r: InsertExecution)
        ensures
            r == insert_execution_spec(fetch, query),
    {
        match fetch {
            FetchMethod::Execute => InsertExecution::Execute,
            _ => match query {
                QueryType::QueryScalar => InsertExecution::Scalar,
                QueryType::QueryAs => InsertExecution::As,
                QueryType::Query => InsertExecution::Plain,
            },
        }
    }

    /// The plan of a multi-row insert through `tuple_param` (see
    /// `insert_plan_spec`). The statement analysis gives
    /// `has_complex_functions` (SQL functions among the inserted values,
    /// which are refused) and the `RETURNING` clause.
    pub fn generate_query_builder(
        method: &DmlMethod,
        tuple_param: &DmlParameter,
        query: QueryType,
        fetch: FetchMethod,
        has_complex_functions: bool,
        returning: Option<&str>,
    ) -> (r: Result<InsertPlan, MacroError>)
        ensures
            match insert_plan_spec(
                *method,
                *tuple_param,
                query,
                fetch,
                has_complex_functions,
                opt_str_text(returning),
            ) {
                Ok(v) => (r matches Ok(p) && p@ == v),
                Err(m) => (r matches Err(e) && e.message@ == m),
            },
    {
        if has_complex_functions {
            return Err(MacroError::new(string_of("SQL functions in VALUES clause not supported")));
        }
        let types = match Self::get_tuple_types(&tuple_param.type_, method) {
            Ok(t) => t,
            Err(e) => return Err(e),
        };
        let by_ref = match Self::has_reference_in_tuple_items(&tuple_param.type_, method) {
            Ok(b) => b,
            Err(e) => return Err(e),
        };
        let returning = match returning {
            Some(clause) => match try_clean_sqlx_cast_syntax(clause) {
                Ok(c) => Some(c),
                Err(m) => return Err(MacroError::new(m)),
            },
            None => None,
        };
        proof {
            assert(types@.len() == types@.map_values(|e: TypeExpr| e@).len());
        }
        Ok(InsertPlan {
            param_name: tuple_param.name.clone(),
            arity: types.len(),
            by_ref,
            empty_return: Self::empty_return(tuple_param.is_generic, fetch, query),
            execution: Self::build_execution(fetch, query),
            returning,
        })
    }
}

// ---------------------------------------------------------------------
// Reading a column into a Rust type
// ---------------------------------------------------------------------

/// How a value read from the database becomes the declared type.
#[derive(Debug, Clone, Copy, PartialEq, Eq, Structural)]
pub enum ConversionShape {
    /// The value as read.
    Direct,
    /// `value as T`, or `value != 0` for `bool`.
    Cast { to_bool: bool },
    /// The same inside an option (`value.map(..)`), flattening the option
    /// first unless the value is a tuple element.
    OptionCast { flatten: bool, to_bool: bool },
}

/// Whether a type is the bare path `bool`.
pub open spec fn is_bool_spec(t: TypeExpr) -> bool {
    t matches TypeExpr::Path(segs) && segs@.len() == 1 && segs@[0].ident@ == "bool"@ && segs@[0].arguments
        is Bare
}

/// How a value becomes `target` (see `ConversionShape`).
pub open spec fn conversion_spec(target: TypeExpr, is_option: bool, is_tuple: bool, db: Database) -> ConversionShape {
    if target@ == native_type_spec(target, db) {
        ConversionShape::Direct
    } else if is_option {
        ConversionShape::OptionCast { flatten: !is_tuple, to_bool: is_bool_spec(target) }
    } else {
        ConversionShape::Cast { to_bool: is_bool_spec(target) }
    }
}

/// Whether a type is the bare path `bool`.
fn is_bool(t: &TypeExpr) -> (r: bool)
    ensures
        r == is_bool_spec(*t),
{
    match t {
        TypeExpr::Path(segs) => segs.len() == 1 && str_eq(segs[0].ident.as_str(), "bool") && match segs[0].arguments {
            crate::syntax::PathArguments::Bare => true,
            _ => false,
        },
        _ => false,
    }
}

/// How a value becomes `target`.
pub fn conversion_shape(target: &TypeExpr, is_option: bool, is_tuple: bool, db: Database) -> (r: ConversionShape)
    ensures
        r == conversion_spec(*target, is_option, is_tuple, db),
{
    if !TypeCastingAnalyzer::needs_casting(target, db) {
        ConversionShape::Direct
    } else if is_option {
        ConversionShape::OptionCast { flatten: !is_tuple, to_bool: is_bool(target) }
    } else {
        ConversionShape::Cast { to_bool: is_bool(target) }
    }
}

/// The type written after the `:` of a column alias, trimmed (`"count!: i64"`
/// gives `"i64"`), or `None` without a `:`.
pub open spec fn explicit_type_text_spec(column: Seq<char>) -> Option<Seq<char>> {
    if seq_has(column, ':') {
        Some(trim_spec(column.subrange(first_index(column, ':') + 1, column.len() as int)))
    } else {
        None
    }
}

/// The type written after the `:` of a column alias, trimmed.
pub fn explicit_type_text(column: &str) -> (r: Option<&str>)
    ensures
        match explicit_type_text_spec(column@) {
            Some(t) => (r matches Some(x) && x@ == t),
            None => r is None,
        },
{
    let n = column.unicode_len();
    match find_char(column, ':') {
        Some(pos) => {
            proof {
                let k = first_index(column@, ':');
                assert(0 <= k < column@.len() && column@[k] == ':' && forall|j: int| 0 <= j < k ==> column@[j] != ':');
                assert(k == pos);
                assert(seq_has(column@, ':'));
            }
            Some(trim_range(column, pos + 1, n))
        },
        None => {
            assert(!seq_has(column@, ':'));
            None
        },
    }
}

/// Whether `text` parses as a Rust type (`syn::parse_str::<syn::Type>`).
pub uninterp spec fn parses_as_type(text: Seq<char>) -> bool;

/// Whether `syn` parses `text` as a type (`syn::parse_str::<syn::Type>`
/// succeeds); a function of the text alone.
#[verifier::external_body]
fn type_text_parses(text: &str) -> (r: bool)
    ensures
        r == parses_as_type(text@),
{
    syn::parse_str::<syn::Type>(text).is_ok()
}

/// The type a column alias declares (`name: Type`): the text after the
/// `:`, trimmed, when it parses as a type.
pub open spec fn explicit_type_spec(column: Seq<char>) -> Option<Seq<char>> {
    match explicit_type_text_spec(column) {
        Some(t) => if parses_as_type(t) { Some(t) } else { None },
        None => None,
    }
}

/// The type a column alias declares, when there is one and it parses as
/// a type (see `explicit_type_spec`).
pub fn extract_sqlx_explicit_type(column_name: &str) -> (r: Option<String>)
    ensures
        match explicit_type_spec(column_name@) {
            Some(t) => (r matches Some(x) && x@ == t),
            None => r is None,
        },
{
    match explicit_type_text(column_name) {
        Some(t) => if type_text_parses(t) {
            Some(string_of(t))
        } else {
            None
        },
        None => None,
    }
}

/// One field of the row struct a tuple query is read into, and how it
/// becomes the tuple element: the column's name; whether the column
/// declares its type (`name: Type`, then that type when it parses, as an option when the
/// element is one, and the value as read); else the element type, the
/// database's type for it, and the conversion between them.
#[derive(Debug)]
pub struct TupleField {
    pub name: String,
    pub explicit_type: Option<String>,
    pub is_option: bool,
    pub target: TypeExpr,
    pub native: TypeExpr,
    pub conversion: ConversionShape,
}

/// Whether `f` is the row-struct field for `column` read into the tuple
/// element `element`.
pub open spec fn tuple_field_holds(f: TupleField, column: Seq<char>, element: TypeExpr, db: Database) -> bool {
    &&& f.name@ == column_name_spec(column)
    &&& match explicit_type_spec(column) {
        Some(t) => (f.explicit_type matches Some(x) && x@ == t),
        None => f.explicit_type is None,
    }
    &&& f.is_option == option_inner_spec(element) is Some
    &&& f.target@ == (match option_inner_spec(element) {
        Some(x) => x@,
        None => element@,
    })
    &&& f.native@ == native_type_spec(f.target, db)
    &&& seq_has(column, ':') ==> f.conversion == ConversionShape::Direct
    &&& !seq_has(column, ':') ==> f.conversion == conversion_spec(f.target, f.is_option, true, db)
}

/// The row-struct field for `column` read into the tuple element `element`.
pub fn tuple_field(column: &str, element: &TypeExpr, db: Database) -> (r: TupleField)
    ensures
        tuple_field_holds(r, column@, *element, db),
{
    let name = string_of(extract_column_name(column));
    let explicit = extract_sqlx_explicit_type(column);
    let (is_option, target) = match TypeCastingAnalyzer::extract_option_type(element) {
        Some(inner) => (true, inner.copy()),
        None => (false, element.copy()),
    };
    let native = TypeCastingAnalyzer::native_type(&target, db);
    let conversion = if has_explicit_sqlx_type(column) {
        ConversionShape::Direct
    } else {
        conversion_shape(&target, is_option, true, db)
    };
    TupleField { name, explicit_type: explicit, is_option, target, native, conversion }
}

// ---------------------------------------------------------------------
// Paginated queries
// ---------------------------------------------------------------------

/// The kind of page a paginated query returns.
#[derive(Debug, Clone, Copy, PartialEq, Eq, Structural)]
pub enum PaginationKind {
    /// Numbered pages with a total count.
    Serial,
    /// Pages with an optional total count.
    Slice,
    /// Keyset pages, without a count.
    Cursor,
    /// Any other type name: treated as an optional count.
    Other,
}

/// The kind of page named `n`.
pub open spec fn pagination_kind_spec(n: Seq<char>) -> PaginationKind {
    if n == "Serial"@ {
        PaginationKind::Serial
    } else if n == "Slice"@ {
        PaginationKind::Slice
    } else if n == "Cursor"@ {
        PaginationKind::Cursor
    } else {
        PaginationKind::Other
    }
}

/// The generated code of a paginated query: the page type and its kind;
/// the parameter that carries the dynamic parameters, and whether the
/// `IntoParams` trait must be imported for it (a concrete path type); the
/// SQL without type-override syntax, run with the dynamic parameters; and
/// whether the SQL is checked at compile time (checked queries).
#[derive(Debug)]
pub struct PaginationPlan {
    pub kind: PaginationKind,
    pub page_name: String,
    pub param_name: String,
    pub import_into_params: bool,
    pub cleaned_sql: String,
    pub compile_validation: bool,
}

/// The abstract content of a pagination plan.
pub struct PaginationPlanView {
    pub kind: PaginationKind,
    pub page_name: Seq<char>,
    pub param_name: Seq<char>,
    pub import_into_params: bool,
    pub cleaned_sql: Seq<char>,
    pub compile_validation: bool,
}

impl View for PaginationPlan {
    type V = PaginationPlanView;

    open spec fn view(&self) -> PaginationPlanView {
        PaginationPlanView {
            kind: self.kind,
            page_name: self.page_name@,
            param_name: self.param_name@,
            import_into_params: self.import_into_params,
            cleaned_sql: self.cleaned_sql@,
            compile_validation: self.compile_validation,
        }
    }
}

/// The message for a return type that is not a page type.
pub open spec fn not_paginated_message() -> Seq<char> {
    "Expected paginated return type (Serial<T>, Slice<T>, or Cursor<T>)"@
}

/// The message for a paginated method without a dynamic parameter.
pub open spec fn no_dynamic_param_message() -> Seq<char> {
    "Page<T> return type requires a dynamic parameter (impl IntoParams, Params, PaginationParams, etc.)"@
}

/// The page type name of a method: the last identifier of its ok type.
pub open spec fn page_type_name(m: DmlMethod) -> Option<Seq<char>> {
    match m.output {
        Some(t) => type_name_of(first_type_arg_of(t)),
        None => None,
    }
}

/// Index of the first dynamic parameter, or the number of parameters.
pub open spec fn first_dynamic(params: Seq<DmlParameter>) -> nat {
    crate::syntax::first_match(params, |p: DmlParameter| p.is_dynamic_param)
}

/// The plan of a paginated query, once the page type name `n` and the
/// dynamic parameter `p` are known.
pub open spec fn pagination_plan_spec(m: DmlMethod, n: Seq<char>, p: DmlParameter) -> Result<PaginationPlanView, Seq<char>> {
    match cast_scan(m.sql_content@) {
        Err(e) => Err(e),
        Ok((segs, tail)) => Ok(PaginationPlanView {
            kind: pagination_kind_spec(n),
            page_name: n,
            param_name: p.name@,
            import_into_params: p.type_ is Path,
            cleaned_sql: cleaned_spec(segs, tail),
            compile_validation: !m.is_unchecked,
        }),
    }
}

/// Decisions about paginated queries.
pub struct PaginatedGenerator;

impl PaginatedGenerator {
    /// The kind of page named `name`.
    pub fn pagination_kind(name: &str) -> (r: PaginationKind)
        ensures
            r == pagination_kind_spec(name@),
    {
        proof {
            reveal_strlit("Serial");
            reveal_strlit("Slice");
            reveal_strlit("Cursor");
        }
        if str_eq(name, "Serial") {
            PaginationKind::Serial
        } else if str_eq(name, "Slice") {
            PaginationKind::Slice
        } else if str_eq(name, "Cursor") {
            PaginationKind::Cursor
        } else {
            PaginationKind::Other
        }
    }

    /// The first dynamic parameter of a method.
    fn find_dynamic_param(method: &DmlMethod) -> (r: Option<&DmlParameter>)
        ensures
            first_dynamic(method.parameters@) < method.parameters@.len() ==> (r matches Some(p) && *p
                == method.parameters@[first_dynamic(method.parameters@) as int]),
            first_dynamic(method.parameters@) >= method.parameters@.len() ==> r is None,
    {
        let ghost ps = method.parameters@;
        let mut i: usize = 0;
        while i < method.parameters.len()
            invariant
                i <= ps.len(),
                ps == method.parameters@,
                forall|j: int| 0 <= j < i ==> !(#[trigger] ps[j]).is_dynamic_param,
            decreases ps.len() - i,
        {
            if method.parameters[i].is_dynamic_param {
                proof { crate::syntax::lemma_first_match(ps, |p: DmlParameter| p.is_dynamic_param, i as int); }
                return Some(&method.parameters[i]);
            }
            i = i + 1;
        }
        proof { crate::syntax::lemma_first_match(ps, |p: DmlParameter| p.is_dynamic_param, i as int); }
        None
    }

    /// The plan once the page type name and the dynamic parameter are known.
    fn plan_with(method: &DmlMethod, page_name: String, param: &DmlParameter) -> (r: Result<PaginationPlan, MacroError>)
        ensures
            match pagination_plan_spec(*method, page_name@, *param) {
                Ok(v) => (r matches Ok(p) && p@ == v),
                Err(m) => (r matches Err(e) && e.message@ == m),
            },
    {
        let cleaned = match try_clean_sqlx_cast_syntax(method.sql_content.as_str()) {
            Ok(c) => c,
            Err(m) => return Err(MacroError::new(m)),
        };
        let import = match param.type_ {
            TypeExpr::Path(_) => true,
            _ => false,
        };
        Ok(PaginationPlan {
            kind: Self::pagination_kind(page_name.as_str()),
            page_name,
            param_name: param.name.clone(),
            import_into_params: import,
            cleaned_sql: cleaned,
            compile_validation: !method.is_unchecked,
        })
    }

    /// The plan of a paginated query whose rows are structs.
    pub fn generate_struct_pagination(method: &DmlMethod) -> (r: Result<PaginationPlan, MacroError>)
        ensures
            match page_type_name(*method) {
                None => (r matches Err(e) && e.message@ == not_paginated_message()),
                Some(n) => if first_dynamic(method.parameters@) < method.parameters@.len() {
                    match pagination_plan_spec(
                        *method,
                        n,
                        method.parameters@[first_dynamic(method.parameters@) as int],
                    ) {
                        Ok(v) => (r matches Ok(p) && p@ == v),
                        Err(m) => (r matches Err(e) && e.message@ == m),
                    }
                } else {
                    (r matches Err(e) && e.message@ == no_dynamic_param_message())
                },
            },
    {
        let page_name = match method.return_ok_type_name() {
            Some(n) => n,
            None => return Err(MacroError::new(
                string_of("Expected paginated return type (Serial<T>, Slice<T>, or Cursor<T>)"),
            )),
        };
        match Self::find_dynamic_param(method) {
            Some(p) => Self::plan_with(method, page_name, p),
            None => Err(MacroError::new(
                string_of(
                    "Page<T> return type requires a dynamic parameter (impl IntoParams, Params, PaginationParams, etc.)",
                ),
            )),
        }
    }

    /// The plan of a paginated query whose rows are tuples, with the row
    /// struct's fields, one per column. `columns` are the result columns the
    /// statement analysis found (`None` when no statement is available).
    pub fn generate_tuple_pagination(method: &DmlMethod, columns: Option<&Vec<String>>, db: Database) -> (r: Result<
        (PaginationPlan, Vec<TupleField>),
        MacroError,
    >)
        ensures
            match page_type_name(*method) {
                None => (r matches Err(e) && e.message@ == not_paginated_message()),
                Some(n) => match crate::query_calls::tuple_row_view(method.output) {
                    TypeView::Tuple(elems) => match columns {
                        None => (r matches Err(e) && e.message@ == "SQL statement not available"@),
                        Some(cols) => if cols@.len() != elems.len() {
                            (r matches Err(e) && e.message@ == "Tuple has "@ + decimal(elems.len())
                                + " elements but SQL query returns "@ + decimal(cols@.len()) + " columns"@)
                        } else if first_dynamic(method.parameters@) >= method.parameters@.len() {
                            (r matches Err(e) && e.message@ == no_dynamic_param_message())
                        } else {
                            match pagination_plan_spec(
                                *method,
                                n,
                                method.parameters@[first_dynamic(method.parameters@) as int],
                            ) {
                                Err(m) => (r matches Err(e) && e.message@ == m),
                                Ok(v) => (r matches Ok((p, fields)) && p@ == v && exists|ts: Seq<TypeExpr>|
                                    #[trigger] type_views(ts) == elems && fields@.len() == cols@.len()
                                        && forall|i: int|
                                        0 <= i < fields@.len() ==> tuple_field_holds(
                                            #[trigger] fields@[i],
                                            cols@[i]@,
                                            ts[i],
                                            db,
                                        )),
                            }
                        },
                    },
                    _ => (r matches Err(e) && e.message@ == "Expected tuple type"@),
                },
            },
    {
        let page_name = match method.return_ok_type_name() {
            Some(n) => n,
            None => return Err(MacroError::new(
                string_of("Expected paginated return type (Serial<T>, Slice<T>, or Cursor<T>)"),
            )),
        };
        let param = Self::find_dynamic_param(method);
        let types = match method.parse_tuple_types() {
            Ok(t) => t,
            Err(e) => return Err(e),
        };
        let cols = match columns {
            Some(c) => c,
            None => return Err(MacroError::new(string_of("SQL statement not available"))),
        };
        if cols.len() != types.len() {
            let mut m = string_of("Tuple has ");
            push_decimal(&mut m, types.len());
            m.append(" elements but SQL query returns ");
            push_decimal(&mut m, cols.len());
            m.append(" columns");
            return Err(MacroError::new(m));
        }
        let mut fields: Vec<TupleField> = Vec::new();
        let mut i: usize = 0;
        while i < cols.len()
            invariant
                i <= cols@.len(),
                cols@.len() == types@.len(),
                fields@.len() == i,
                forall|j: int| 0 <= j < i ==> tuple_field_holds(#[trigger] fields@[j], cols@[j]@, types@[j], db),
            decreases cols@.len() - i,
        {
            fields.push(tuple_field(cols[i].as_str(), &types[i], db));
            i = i + 1;
        }
        proof {
            assert(type_views(types@) == types@.map_values(|t: TypeExpr| t@));
        }
        match param {
            Some(p) => match Self::plan_with(method, page_name, p) {
                Ok(plan) => Ok((plan, fields)),
                Err(e) => Err(e),
            },
            None => Err(MacroError::new(
                string_of(
                    "Page<T> return type requires a dynamic parameter (impl IntoParams, Params, PaginationParams, etc.)",
                ),
            )),
        }
    }
}

// ---------------------------------------------------------------------
// Scalar queries
// ---------------------------------------------------------------------

/// The shape of a scalar query call.
#[derive(Debug, Clone, Copy, PartialEq, Eq, Structural)]
pub enum ScalarShape {
    /// A page type: generated as a paginated query.
    Paginated,
    /// Unchecked: `query_scalar` on the cleaned SQL with runtime binds.
    Unchecked,
    /// All rows, each converted (inside its option when the rows are
    /// `Option<T>`).
    VecCast { option_rows: bool },
    /// All rows, as read.
    VecDirect,
    /// One value: `Option<Option<T>>` flattened, then converted.
    FlattenCast,
    /// One value: `Option<Option<T>>` flattened.
    Flatten,
    /// One value, converted.
    Cast,
    /// One value, as read.
    Direct,
}

/// The generated code of a scalar query: its shape, the SQL without
/// type-override syntax, the scalar type, the type a value is converted
/// to (the scalar type, or `T` of `Option<T>`), and how (`conversion`, for
/// single values).
#[derive(Debug)]
pub struct ScalarPlan {
    pub shape: ScalarShape,
    pub cleaned_sql: String,
    pub scalar_type: TypeExpr,
    pub target_type: TypeExpr,
    pub conversion: ConversionShape,
}

/// Whether an analysed return type is `Result<Option<..>, ..>`.
pub open spec fn flattens(rt: ReturnTypeView) -> bool {
    rt matches ReturnTypeView::Result(ok, _) && *ok is Option
}

/// Whether the rows of a `Vec` return type are options: the ok type is
/// `Vec<Option<..>>`.
pub open spec fn option_rows(m: DmlMethod) -> bool {
    m.output matches Some(TypeExpr::Path(segs)) && crate::analysis::first_type_arg_spec(segs@) matches Some(ok)
        && crate::analysis::vec_inner_spec(ok) matches Some(row) && option_inner_spec(row) is Some
}

/// The shape of a scalar query for a method that is neither paginated nor
/// unchecked, given whether a conversion is needed.
pub open spec fn checked_scalar_shape(m: DmlMethod, fetch: FetchMethod, needs: bool, flatten: bool) -> ScalarShape {
    match fetch {
        FetchMethod::FetchAll => if needs { ScalarShape::VecCast { option_rows: option_rows(m) } } else { ScalarShape::VecDirect },
        _ => if needs && flatten {
            ScalarShape::FlattenCast
        } else if flatten {
            ScalarShape::Flatten
        } else if needs {
            ScalarShape::Cast
        } else {
            ScalarShape::Direct
        },
    }
}

/// Decisions about scalar queries.
pub struct QueryScalarGenerator;

impl QueryScalarGenerator {
    /// Whether the return type is `Result<Option<..>, ..>`.
    fn should_use_auto_flatten(method: &DmlMethod, db: Database) -> (r: bool)
        ensures
            r == (method.output matches Some(t) && flattens(analyze_spec(t, db))),
    {
        match &method.output {
            Some(t) => {
                let v = match TypeAnalyzer::analyze_type(t, db) {
                    Ok(v) => v,
                    Err(_) => return false,
                };
                match &v {
                    crate::analysis::ReturnType::Result { ok_type, .. } => match &**ok_type {
                        crate::analysis::ReturnType::Option { .. } => true,
                        _ => {
                            assert(!(ok_type.rt_view() is Option));
                            false
                        },
                    },
                    _ => {
                        assert(!(v.rt_view() is Result));
                        false
                    },
                }
            },
            None => false,
        }
    }

    /// Whether the ok type is `Vec<Option<..>>`.
    fn is_vec_option_type(method: &DmlMethod) -> (r: bool)
        ensures
            r == option_rows(*method),
    {
        match &method.output {
            Some(TypeExpr::Path(segs)) => match crate::analysis::first_type_arg(segs) {
                Some(ok) => match TypeAnalyzer::get_vec_inner_type(ok) {
                    Some(row) => TypeCastingAnalyzer::extract_option_type(row).is_some(),
                    None => false,
                },
                None => false,
            },
            _ => false,
        }
    }

    /// The plan of a scalar query. `fetch` is the method's fetch method;
    /// `first_column` the first result column the statement analysis found,
    /// whose declared type (`name: Type`) makes a conversion unneeded.
    pub fn generate(method: &DmlMethod, fetch: FetchMethod, first_column: Option<&str>, db: Database) -> (r: Result<
        ScalarPlan,
        MacroError,
    >)
        ensures
            match cast_scan(method.sql_content@) {
                Err(m) => (r matches Err(e) && e.message@ == m),
                Ok((segs, tail)) => (r matches Ok(p) && {
                    let explicit = first_column matches Some(c) && seq_has(c@, ':');
                    let needs = !explicit && p.scalar_type@ != native_type_spec(p.scalar_type, db);
                    let flatten = method.output matches Some(t) && flattens(analyze_spec(t, db));
                    &&& p.cleaned_sql@ == cleaned_spec(segs, tail)
                    &&& p.scalar_type@ == (match method.output {
                        Some(t) => inner_type_spec(t)@,
                        None => TypeView::Tuple(Seq::empty()),
                    })
                    &&& p.target_type@ == (match option_inner_spec(p.scalar_type) {
                        Some(x) => x@,
                        None => p.scalar_type@,
                    })
                    &&& p.shape == (if page_type_name(*method) matches Some(n)
                        && crate::analysis::is_pagination_name(n) {
                        ScalarShape::Paginated
                    } else if method.is_unchecked {
                        ScalarShape::Unchecked
                    } else {
                        checked_scalar_shape(*method, fetch, needs, flatten)
                    })
                    &&& p.conversion == (if flatten {
                        conversion_spec(p.scalar_type, true, false, db)
                    } else {
                        conversion_spec(p.target_type, option_inner_spec(p.scalar_type) is Some, false, db)
                    })
                }),
            },
    {
        let cleaned = match try_clean_sqlx_cast_syntax(method.sql_content.as_str()) {
            Ok(c) => c,
            Err(m) => return Err(MacroError::new(m)),
        };
        let scalar = method.get_return_inner_type();
        let explicit = match first_column {
            Some(c) => has_explicit_sqlx_type(c),
            None => false,
        };
        let needs = !explicit && TypeCastingAnalyzer::needs_casting(&scalar, db);
        let flatten = Self::should_use_auto_flatten(method, db);
        let (is_option, target) = match TypeCastingAnalyzer::extract_option_type(&scalar) {
            Some(inner) => (true, inner.copy()),
            None => (false, scalar.copy()),
        };
        let conversion = if flatten {
            conversion_shape(&scalar, true, false, db)
        } else {
            conversion_shape(&target, is_option, false, db)
        };
        let shape = if method.is_pagination_type() {
            ScalarShape::Paginated
        } else if method.is_unchecked {
            ScalarShape::Unchecked
        } else {
            match fetch {
                FetchMethod::FetchAll => if needs {
                    ScalarShape::VecCast { option_rows: Self::is_vec_option_type(method) }
                } else {
                    ScalarShape::VecDirect
                },
                _ => if needs && flatten {
                    ScalarShape::FlattenCast
                } else if flatten {
                    ScalarShape::Flatten
                } else if needs {
                    ScalarShape::Cast
                } else {
                    ScalarShape::Direct
                },
            }
        };
        Ok(ScalarPlan { shape, cleaned_sql: cleaned, scalar_type: scalar, target_type: target, conversion })
    }
}

} // verus!
