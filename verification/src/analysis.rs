//! Classification of the return types of repository methods: which query
//! macro fits a type (`query!`, `query_as!`, `query_scalar!`) and how rows
//! are fetched for it.
use vstd::prelude::*;
use crate::database::Database;
use crate::error::MacroError;
use crate::syntax::{
    TypeExpr, PathSegment, PathArguments, GenericArgument, TypeBound, Generics, WherePredicate,
    TypeView, SegmentView, ArgumentsView, path_view, is_trait_named, bound_item, lemma_first_match, ends_with_ident,
    is_item_arg, first_match, is_bound_with_item, find_bound_item, lemma_first_match_found, path_ends_with,
};
use crate::text::{str_eq, string_of, ends_with, ends_with_spec};

verus! {

/// What a Rust type is, for choosing a query form.
#[derive(Debug)]
pub enum ReturnType {
    /// A type that maps to one column: `i32`, `String`, `bool`, ...
    Scalar { name: String },
    /// A type mapped from a whole row.
    Struct { name: String },
    /// `(A, B, ..)`.
    Tuple { elements: Vec<ReturnType> },
    /// `Vec<T>`.
    Vec { element_type: Box<ReturnType> },
    /// `Option<T>`.
    Option { inner_type: Box<ReturnType> },
    /// `Result<T, E>`.
    Result { ok_type: Box<ReturnType>, err_type: Box<ReturnType> },
    /// `impl Stream<Item = T>`.
    Stream { item_type: Box<ReturnType> },
    /// `()`.
    Unit,
    /// Anything else, with a description.
    Unknown { name: String },
}

/// The abstract content of a `ReturnType`.
pub enum ReturnTypeView {
    Scalar(Seq<char>),
    Struct(Seq<char>),
    Tuple(Seq<ReturnTypeView>),
    Vec(Box<ReturnTypeView>),
    Option(Box<ReturnTypeView>),
    Result(Box<ReturnTypeView>, Box<ReturnTypeView>),
    Stream(Box<ReturnTypeView>),
    Unit,
    Unknown(Seq<char>),
}

impl ReturnType {
    /// The abstract content of this classification.
    pub open spec fn rt_view(&self) -> ReturnTypeView
        decreases self,
    {
        match self {
            ReturnType::Scalar { name } => ReturnTypeView::Scalar(name@),
            ReturnType::Struct { name } => ReturnTypeView::Struct(name@),
            ReturnType::Tuple { elements } => ReturnTypeView::Tuple(
                Seq::new(
                    elements@.len(),
                    |i: int|
                        if 0 <= i < elements@.len() {
                            elements@[i].rt_view()
                        } else {
                            ReturnTypeView::Unit
                        },
                ),
            ),
            ReturnType::Vec { element_type } => ReturnTypeView::Vec(Box::new(element_type.rt_view())),
            ReturnType::Option { inner_type } => ReturnTypeView::Option(Box::new(inner_type.rt_view())),
            ReturnType::Result { ok_type, err_type } => ReturnTypeView::Result(
                Box::new(ok_type.rt_view()),
                Box::new(err_type.rt_view()),
            ),
            ReturnType::Stream { item_type } => ReturnTypeView::Stream(Box::new(item_type.rt_view())),
            ReturnType::Unit => ReturnTypeView::Unit,
            ReturnType::Unknown { name } => ReturnTypeView::Unknown(name@),
        }
    }
}

impl View for ReturnType {
    type V = ReturnTypeView;

    open spec fn view(&self) -> ReturnTypeView {
        self.rt_view()
    }
}

/// The abstract contents of a list of classifications.
pub open spec fn rt_views(s: Seq<ReturnType>) -> Seq<ReturnTypeView> {
    s.map_values(|t: ReturnType| t@)
}

/// The query macro a type calls for.
#[derive(Debug, Clone, Copy, PartialEq, Eq, Structural)]
pub enum QueryType {
    /// `query_as!`: rows mapped into a struct or tuple.
    QueryAs,
    /// `query_scalar!`: one column.
    QueryScalar,
    /// `query!`: no mapping.
    Query,
}

/// How the rows of a query are fetched.
#[derive(Debug, Clone, Copy, PartialEq, Eq, Structural)]
pub enum FetchMethod {
    /// `execute()`: no rows expected.
    Execute,
    /// `fetch_one()`: exactly one row.
    FetchOne,
    /// `fetch_all()`: every row.
    FetchAll,
    /// `fetch_optional()`: zero or one row.
    FetchOptional,
    /// `fetch()`: a stream of rows.
    Fetch,
}

/// The names of the pagination response types.
pub open spec fn is_pagination_name(n: Seq<char>) -> bool {
    n == "Serial"@ || n == "Slice"@ || n == "Cursor"@
}

/// Map and set types, which are read like structs.
pub open spec fn is_map_like_name(n: Seq<char>) -> bool {
    n == "HashMap"@ || n == "BTreeMap"@ || n == "IndexMap"@ || n == "HashSet"@
}

/// Built-in scalar type names.
pub open spec fn is_basic_scalar_name(n: Seq<char>) -> bool {
    n == "i8"@ || n == "i16"@ || n == "i32"@ || n == "i64"@ || n == "i128"@ || n == "u8"@
        || n == "u16"@ || n == "u32"@ || n == "u64"@ || n == "u128"@ || n == "f32"@ || n == "f64"@
        || n == "bool"@ || n == "char"@ || n == "usize"@ || n == "isize"@ || n == "String"@
}

/// Library scalar type names (dates, identifiers, decimals, networks, ...).
pub open spec fn is_common_scalar_name(n: Seq<char>) -> bool {
    n == "Cow"@ || n == "Uuid"@ || n == "Hyphenated"@ || n == "Simple"@ || n == "Decimal"@
        || n == "BigDecimal"@ || n == "Time"@ || n == "Date"@ || n == "DateTime"@
        || n == "NaiveDateTime"@ || n == "NaiveDate"@ || n == "NaiveTime"@
        || n == "PrimitiveDateTime"@ || n == "OffsetDateTime"@ || n == "Timestamp"@ || n == "Span"@
        || n == "MacAddress"@ || n == "Blob"@ || n == "IpNet"@ || n == "Ipv4Net"@ || n == "Ipv6Net"@
        || n == "IpNetwork"@ || n == "BitVec"@ || n == "BString"@ || n == "JsonValue"@
}

/// PostgreSQL scalar type names.
pub open spec fn is_pg_scalar_name(n: Seq<char>) -> bool {
    n == "PgInterval"@ || n == "PgMoney"@ || n == "PgLTree"@ || n == "PgLQuery"@ || n == "PgCiText"@
        || n == "PgCube"@ || n == "PgPoint"@ || n == "PgLine"@ || n == "PgLSeg"@ || n == "PgBox"@
        || n == "PgPath"@ || n == "PgPolygon"@ || n == "PgCircle"@ || n == "PgHstore"@
        || n == "PgTimeTz"@
}

/// Whether a path names a scalar type for the database `db`: by its last
/// identifier, the PostgreSQL types only for PostgreSQL.
pub open spec fn is_scalar_spec(segs: Seq<PathSegment>, db: Database) -> bool {
    segs.len() > 0 && {
        let n = segs.last().ident@;
        is_basic_scalar_name(n) || is_common_scalar_name(n) || (db is Postgres && (is_pg_scalar_name(n)))
    }
}

/// The identifiers of a path joined by `::`.
pub open spec fn path_text(segs: Seq<PathSegment>) -> Seq<char>
    decreases segs.len(),
{
    if segs.len() == 0 {
        Seq::empty()
    } else if segs.len() == 1 {
        segs[0].ident@
    } else {
        path_text(segs.drop_last()) + "::"@ + segs.last().ident@
    }
}

/// The classifications of the arguments that are types (`None` for the others).
pub open spec fn arg_results(args: Seq<GenericArgument>, db: Database) -> Seq<Option<ReturnTypeView>>
    decreases args,
{
    Seq::new(
        args.len(),
        |i: int|
            if 0 <= i < args.len() && args[i] is Type {
                Some(analyze_spec(args[i]->Type_0, db))
            } else {
                None
            },
    )
}

/// The values present in `s`, in order.
pub open spec fn somes(s: Seq<Option<ReturnTypeView>>) -> Seq<ReturnTypeView>
    decreases s.len(),
{
    if s.len() == 0 {
        Seq::empty()
    } else {
        let rest = somes(s.drop_last());
        match s.last() {
            Some(v) => rest.push(v),
            None => rest,
        }
    }
}

/// Classification of a path whose last segment `ident` has angle-bracket
/// arguments, whose type arguments classify as `types`.
pub open spec fn generic_spec(
    segs: Seq<PathSegment>,
    ident: Seq<char>,
    types: Seq<ReturnTypeView>,
    db: Database,
) -> ReturnTypeView {
    if ident == "Vec"@ {
        if types.len() > 0 { ReturnTypeView::Vec(Box::new(types[0])) } else { ReturnTypeView::Unknown("Vec<?>"@) }
    } else if ident == "Option"@ {
        if types.len() > 0 { ReturnTypeView::Option(Box::new(types[0])) } else { ReturnTypeView::Unknown("Option<?>"@) }
    } else if ident == "Result"@ {
        if types.len() == 2 {
            ReturnTypeView::Result(Box::new(types[0]), Box::new(types[1]))
        } else if types.len() == 1 {
            ReturnTypeView::Result(Box::new(types[0]), Box::new(ReturnTypeView::Unknown("sqlx_data::Error"@)))
        } else {
            ReturnTypeView::Unknown(path_text(segs))
        }
    } else if ident == "Page"@ {
        ReturnTypeView::Unknown("Page_deprecated"@)
    } else if is_map_like_name(ident) || is_pagination_name(ident) {
        ReturnTypeView::Struct(ident)
    } else if ident == "DateTime"@ || ident == "Json"@ {
        ReturnTypeView::Scalar(ident)
    } else if db is Postgres && (ident == "PgRange"@ || is_pg_scalar_name(ident)) {
        ReturnTypeView::Scalar(ident)
    } else {
        ReturnTypeView::Unknown(path_text(segs))
    }
}

/// The classification of a type: paths by their last segment, tuples element
/// by element, `impl Stream<Item = T>` by its item type.
pub open spec fn analyze_spec(t: TypeExpr, db: Database) -> ReturnTypeView
    decreases t,
{
    match t {
        TypeExpr::Path(segs) => {
            if segs@.len() == 0 {
                ReturnTypeView::Unknown("empty_path"@)
            } else {
                let last = segs@.last();
                match last.arguments {
                    PathArguments::AngleBracketed(args) => generic_spec(
                        segs@,
                        last.ident@,
                        somes(arg_results(args@, db)),
                        db,
                    ),
                    _ => if is_scalar_spec(segs@, db) {
                        ReturnTypeView::Scalar(last.ident@)
                    } else {
                        ReturnTypeView::Struct(last.ident@)
                    },
                }
            }
        },
        TypeExpr::Tuple(elems) => {
            if elems@.len() == 0 {
                ReturnTypeView::Unit
            } else {
                ReturnTypeView::Tuple(
                    Seq::new(
                        elems@.len(),
                        |i: int|
                            if 0 <= i < elems@.len() {
                                analyze_spec(elems@[i], db)
                            } else {
                                ReturnTypeView::Unit
                            },
                    ),
                )
            }
        },
        TypeExpr::ImplTrait(bounds) => {
            let m = first_match(bounds@, |b: TypeBound| is_bound_with_item(b, "Stream"@));
            if m < bounds@.len() {
                match bounds@[m as int] {
                    TypeBound::Trait(p) => {
                        if p@.len() > 0 {
                            match p@.last().arguments {
                                PathArguments::AngleBracketed(args) => {
                                    let k = first_match(args@, |a: GenericArgument| is_item_arg(a));
                                    if k < args@.len() {
                                        match args@[k as int] {
                                            GenericArgument::AssocType(_, item) => ReturnTypeView::Stream(
                                                Box::new(analyze_spec(item, db)),
                                            ),
                                            _ => ReturnTypeView::Unknown("ImplTrait"@),
                                        }
                                    } else {
                                        ReturnTypeView::Unknown("ImplTrait"@)
                                    }
                                },
                                _ => ReturnTypeView::Unknown("ImplTrait"@),
                            }
                        } else {
                            ReturnTypeView::Unknown("ImplTrait"@)
                        }
                    },
                    TypeBound::Other => ReturnTypeView::Unknown("ImplTrait"@),
                }
            } else {
                ReturnTypeView::Unknown("ImplTrait"@)
            }
        },
        _ => ReturnTypeView::Unknown("UnknownType"@),
    }
}

/// Whether a classification is the scalar `u8`.
pub open spec fn is_u8_scalar(v: ReturnTypeView) -> bool {
    v matches ReturnTypeView::Scalar(n) && n == "u8"@
}

/// The query macro for a classification: scalars (and `Vec<u8>` byte
/// payloads) by `query_scalar!`, structs and tuples by `query_as!`, wrappers
/// (`Result`, `Vec`, `Option`, streams) by what they hold, the rest by `query!`.
pub open spec fn query_strategy_spec(v: ReturnTypeView) -> QueryType
    decreases v,
{
    match v {
        ReturnTypeView::Result(ok, _) => query_strategy_spec(*ok),
        ReturnTypeView::Unit => QueryType::Query,
        ReturnTypeView::Scalar(_) => QueryType::QueryScalar,
        ReturnTypeView::Struct(_) => QueryType::QueryAs,
        ReturnTypeView::Tuple(_) => QueryType::QueryAs,
        ReturnTypeView::Vec(e) => if is_u8_scalar(*e) { QueryType::QueryScalar } else { query_strategy_spec(*e) },
        ReturnTypeView::Option(i) => if (*i matches ReturnTypeView::Vec(e) && is_u8_scalar(*e)) {
            QueryType::QueryScalar
        } else {
            query_strategy_spec(*i)
        },
        ReturnTypeView::Stream(item) => query_strategy_spec(*item),
        ReturnTypeView::Unknown(_) => QueryType::Query,
    }
}

/// How rows are fetched for a classification: nothing for `()` and
/// `..QueryResult`, all rows for `Vec` and pagination types, at most one for
/// `Option`, a stream for streams, exactly one otherwise.
pub open spec fn fetch_method_spec(v: ReturnTypeView) -> FetchMethod
    decreases v,
{
    match v {
        ReturnTypeView::Result(ok, _) => fetch_method_spec(*ok),
        ReturnTypeView::Unit => FetchMethod::Execute,
        ReturnTypeView::Struct(n) => if is_pagination_name(n) {
            FetchMethod::FetchAll
        } else if ends_with_spec(n, "QueryResult"@) {
            FetchMethod::Execute
        } else {
            FetchMethod::FetchOne
        },
        ReturnTypeView::Vec(_) => FetchMethod::FetchAll,
        ReturnTypeView::Option(_) => FetchMethod::FetchOptional,
        ReturnTypeView::Stream(_) => FetchMethod::Fetch,
        _ => FetchMethod::FetchOne,
    }
}

/// The first angle-bracket argument of a path's last segment, if it is a type.
pub open spec fn first_type_arg_spec(segs: Seq<PathSegment>) -> Option<TypeExpr> {
    if segs.len() > 0 && segs.last().arguments is AngleBracketed {
        let args = segs.last().arguments->AngleBracketed_0@;
        if args.len() > 0 && args[0] is Type { Some(args[0]->Type_0) } else { None }
    } else {
        None
    }
}

/// `T` for `Vec<T>` (a path whose last segment is `Vec`).
pub open spec fn vec_inner_spec(t: TypeExpr) -> Option<TypeExpr> {
    match t {
        TypeExpr::Path(segs) => if ends_with_ident(segs@, "Vec"@) { first_type_arg_spec(segs@) } else { None },
        _ => None,
    }
}

/// The element type of an iterable: `Vec<T>`, `&[T]`, `&mut [T]`, `[T; N]`,
/// `impl IntoIterator<Item = T>`.
pub open spec fn iterable_inner_spec(t: TypeExpr) -> Option<TypeExpr> {
    match t {
        TypeExpr::Path(_) => vec_inner_spec(t),
        TypeExpr::Reference(_, e) => match *e {
            TypeExpr::Slice(x) => Some(*x),
            _ => None,
        },
        TypeExpr::Array(e) => Some(*e),
        TypeExpr::ImplTrait(bounds) => into_iterator_item_spec(bounds@),
        _ => None,
    }
}

/// The `Item` type of the first `IntoIterator<Item = T>` bound.
pub open spec fn into_iterator_item_spec(bounds: Seq<TypeBound>) -> Option<TypeExpr> {
    let m = first_match(bounds, |b: TypeBound| is_bound_with_item(b, "IntoIterator"@));
    if m < bounds.len() { Some(bound_item(bounds[m as int])) } else { None }
}

/// Whether a path type ends with `name`.
pub open spec fn is_path_named(t: TypeExpr, name: Seq<char>) -> bool {
    t matches TypeExpr::Path(segs) && ends_with_ident(segs@, name)
}

/// Whether a bound is `Into<T>` with a type as its first argument.
pub open spec fn is_into_bound(b: TypeBound) -> bool {
    is_trait_named(b, "Into"@) && first_type_arg_spec(b->Trait_0@) is Some
}

/// `T` for `impl Into<T>` (the first such bound).
pub open spec fn impl_into_spec(t: TypeExpr) -> Option<TypeExpr> {
    match t {
        TypeExpr::ImplTrait(bounds) => {
            let m = first_match(bounds@, |b: TypeBound| is_into_bound(b));
            if m < bounds@.len() { first_type_arg_spec(bounds@[m as int]->Trait_0@) } else { None }
        },
        _ => None,
    }
}

/// Whether an argument is `Item = (..)` or `Item = &(..)`.
pub open spec fn is_tuple_item_arg(a: GenericArgument) -> bool {
    a matches GenericArgument::AssocType(n, t) && n@ == "Item"@ && (t is Tuple || (t matches TypeExpr::Reference(_, e) && *e is Tuple))
}

/// Whether a bound is `IntoIterator<.., Item = (..), ..>`.
pub open spec fn is_tuple_iter_bound(b: TypeBound) -> bool {
    &&& is_trait_named(b, "IntoIterator"@)
    &&& b->Trait_0@.last().arguments is AngleBracketed
    &&& {
        let args = b->Trait_0@.last().arguments->AngleBracketed_0@;
        first_match(args, |a: GenericArgument| is_tuple_item_arg(a)) < args.len()
    }
}

/// The tuple item of a bound that `is_tuple_iter_bound` accepts.
pub open spec fn tuple_iter_item(b: TypeBound) -> TypeExpr {
    let args = b->Trait_0@.last().arguments->AngleBracketed_0@;
    args[first_match(args, |a: GenericArgument| is_tuple_item_arg(a)) as int]->AssocType_1
}

/// Whether a `where` predicate bounds the type named `name` by an
/// `IntoIterator` over tuples.
pub open spec fn is_tuple_iter_predicate(p: WherePredicate, name: Seq<char>) -> bool {
    p matches WherePredicate::Type(bt, bounds) && is_path_named(bt, name)
        && first_match(bounds@, |b: TypeBound| is_tuple_iter_bound(b)) < bounds@.len()
}

/// The tuple item type that the `where` clause gives the parameter `name`:
/// from the first predicate on `name` with an `IntoIterator<Item = (..)>`
/// (or `Item = &(..)`) bound.
pub open spec fn where_tuple_spec(g: Generics, name: Seq<char>) -> Option<TypeExpr> {
    match g.where_clause {
        None => None,
        Some(preds) => {
            let i = first_match(preds@, |p: WherePredicate| is_tuple_iter_predicate(p, name));
            if i < preds@.len() {
                let bounds = preds@[i as int]->Type_1@;
                Some(tuple_iter_item(bounds[first_match(bounds, |b: TypeBound| is_tuple_iter_bound(b)) as int]))
            } else {
                None
            }
        },
    }
}

/// Whether a parameter type is an iterable of tuples: by its element type,
/// or a single-segment generic parameter bounded by `IntoIterator<Item = (..)>`.
pub open spec fn is_tuple_iterable_spec(t: TypeExpr, g: Generics) -> bool {
    match iterable_inner_spec(t) {
        Some(inner) => inner is Tuple,
        None => t matches TypeExpr::Path(segs) && segs@.len() == 1 && where_tuple_spec(g, segs@[0].ident@) is Some,
    }
}

/// Whether a type is a path whose last segment is `u8`.
pub open spec fn is_u8_path(t: TypeExpr) -> bool {
    is_path_named(t, "u8"@)
}

/// `T` for `Option<T>`.
pub open spec fn option_inner_spec(t: TypeExpr) -> Option<TypeExpr> {
    match t {
        TypeExpr::Path(segs) => if ends_with_ident(segs@, "Option"@) { first_type_arg_spec(segs@) } else { None },
        _ => None,
    }
}

/// Integer names that SQLite reads back as `i64`.
pub open spec fn is_sqlite_widened_int(n: Seq<char>) -> bool {
    n == "u64"@ || n == "u32"@ || n == "u16"@ || n == "u8"@ || n == "usize"@ || n == "i32"@
        || n == "i16"@ || n == "i8"@ || n == "isize"@
}

/// The single-segment path type `name`.
pub open spec fn simple_path_view(name: Seq<char>) -> TypeView {
    TypeView::Path(seq![SegmentView { ident: name, arguments: ArgumentsView::Bare }])
}

/// The type the database hands back for a column read as `t`: on SQLite,
/// narrow integers and `bool` as `i64` and `f32` as `f64`; otherwise `t`.
pub open spec fn native_type_spec(t: TypeExpr, db: Database) -> TypeView {
    match t {
        TypeExpr::Path(segs) => if segs@.len() > 0 && db is Sqlite {
            let n = segs@.last().ident@;
            if is_sqlite_widened_int(n) || n == "bool"@ {
                simple_path_view("i64"@)
            } else if n == "f32"@ {
                simple_path_view("f64"@)
            } else {
                t@
            }
        } else {
            t@
        },
        _ => t@,
    }
}

/// Analysis of the types of repository methods.
pub struct TypeAnalyzer;

impl TypeAnalyzer {
    /// The identifiers of a path joined by `::`.
    pub fn path_to_string(path: &Vec<PathSegment>) -> (r: String)
        ensures
            r@ == path_text(path@),
    {
        if path.len() == 0 {
            return String::new();
        }
        let mut out = path[0].ident.clone();
        let mut i: usize = 1;
        while i < path.len()
            invariant
                1 <= i <= path@.len(),
                out@ == path_text(path@.subrange(0, i as int)),
            decreases path@.len() - i,
        {
            out.append("::");
            out.append(path[i].ident.as_str());
            proof {
                reveal_strlit("::");
                let sub = path@.subrange(0, i + 1);
                assert(sub.drop_last() =~= path@.subrange(0, i as int));
                assert(sub.last() == path@[i as int]);
            }
            i = i + 1;
        }
        proof {
            assert(path@.subrange(0, path@.len() as int) =~= path@);
            if path@.len() == 1 {
                assert(path@.subrange(0, 1)[0] == path@[0]);
            }
        }
        out
    }

    /// Whether a path names a scalar type for `db` (by its last identifier).
    pub fn is_scalar(path: &Vec<PathSegment>, db: Database) -> (r: Result<bool, MacroError>)
        ensures
            r matches Ok(b) && b == is_scalar_spec(path@, db),
    {
        if path.len() == 0 {
            return Ok(false);
        }
        let n = path[path.len() - 1].ident.as_str();
        Ok(basic_scalar_name(n) || common_scalar_name(n) || (db == Database::Postgres && pg_scalar_name(n)))
    }

    /// Classification of a path whose last segment has angle-bracket arguments.
    fn analyze_generic(path: &Vec<PathSegment>, ident: &String, types: Vec<ReturnType>, db: Database) -> (r: ReturnType)
        ensures
            r@ == generic_spec(path@, ident@, rt_views(types@), db),
    {
        let mut types = types;
        let n = ident.as_str();
        let ghost tv = rt_views(types@);
        assert(tv.len() == types@.len());
        assert(forall|j: int| 0 <= j < tv.len() ==> tv[j] == (#[trigger] types@[j])@);
        if str_eq(n, "Vec") {
            if types.len() > 0 {
                let t = types.remove(0);
                ReturnType::Vec { element_type: Box::new(t) }
            } else {
                ReturnType::Unknown { name: string_of("Vec<?>") }
            }
        } else if str_eq(n, "Option") {
            if types.len() > 0 {
                let t = types.remove(0);
                ReturnType::Option { inner_type: Box::new(t) }
            } else {
                ReturnType::Unknown { name: string_of("Option<?>") }
            }
        } else if str_eq(n, "Result") {
            if types.len() == 2 {
                let ghost all = types@;
                let ok = types.remove(0);
                assert(types@[0] == all[1]);
                let err = types.remove(0);
                assert(err@ == tv[1]);
                assert(ok@ == tv[0]);
                let r = ReturnType::Result { ok_type: Box::new(ok), err_type: Box::new(err) };
                assert(r@ == generic_spec(path@, ident@, tv, db));
                r
            } else if types.len() == 1 {
                let ok = types.remove(0);
                assert(ok@ == tv[0]);
                let e = ReturnType::Unknown { name: string_of("sqlx_data::Error") };
                assert(e@ == ReturnTypeView::Unknown("sqlx_data::Error"@));
                let r = ReturnType::Result { ok_type: Box::new(ok), err_type: Box::new(e) };
                assert(r@ == generic_spec(path@, ident@, tv, db));
                r
            } else {
                ReturnType::Unknown { name: Self::path_to_string(path) }
            }
        } else if str_eq(n, "Page") {
            ReturnType::Unknown { name: string_of("Page_deprecated") }
        } else if str_eq(n, "HashMap") || str_eq(n, "BTreeMap") || str_eq(n, "IndexMap") || str_eq(n, "HashSet")
            || str_eq(n, "Serial") || str_eq(n, "Slice") || str_eq(n, "Cursor") {
            ReturnType::Struct { name: ident.clone() }
        } else if str_eq(n, "DateTime") || str_eq(n, "Json") {
            ReturnType::Scalar { name: ident.clone() }
        } else if db == Database::Postgres && (str_eq(n, "PgRange") || pg_scalar_name(n)) {
            ReturnType::Scalar { name: ident.clone() }
        } else {
            ReturnType::Unknown { name: Self::path_to_string(path) }
        }
    }

    /// The classification of a type; never an error.
    pub fn analyze_type(ty: &TypeExpr, db: Database) -> (r: Result<ReturnType, MacroError>)
        ensures
            r matches Ok(v) && v@ == analyze_spec(*ty, db),
        decreases ty,
    {
        match ty {
            TypeExpr::Path(segs) => {
                if segs.len() == 0 {
                    return Ok(ReturnType::Unknown { name: string_of("empty_path") });
                }
                let last = &segs[segs.len() - 1];
                match &last.arguments {
                    PathArguments::AngleBracketed(args) => {
                        let mut types: Vec<ReturnType> = Vec::new();
                        let mut i: usize = 0;
                        while i < args.len()
                            invariant
                                i <= args@.len(),
                                segs@.len() > 0,
                                *last == segs@.last(),
                                last.arguments == PathArguments::AngleBracketed(*args),
                                *ty == TypeExpr::Path(*segs),
                                rt_views(types@) == somes(arg_results(args@, db).subrange(0, i as int)),
                            decreases args@.len() - i,
                        {
                            let ghost before = types@;
                            if let GenericArgument::Type(t) = &args[i] {
                                proof {
                                    assert(decreases_to!(*ty => ty->Path_0));
                                    assert(decreases_to!(ty->Path_0 => ty->Path_0@));
                                    assert(decreases_to!(ty->Path_0@ => ty->Path_0@[segs@.len() - 1]));
                                    assert(decreases_to!(ty->Path_0@[segs@.len() - 1] => ty->Path_0@[segs@.len() - 1].arguments));
                                    assert(decreases_to!(last.arguments => last.arguments->AngleBracketed_0));
                                    assert(decreases_to!(*args => args@));
                                    assert(decreases_to!(args@ => args@[i as int]));
                                    assert(decreases_to!(args@[i as int] => args@[i as int]->Type_0));
                                }
                                let v = match Self::analyze_type(t, db) {
                                    Ok(v) => v,
                                    Err(e) => return Err(e),
                                };
                                types.push(v);
                            }
                            proof {
                                let x = arg_results(args@, db);
                                assert(x.subrange(0, i + 1).drop_last() =~= x.subrange(0, i as int));
                                assert(rt_views(types@) =~= (if args@[i as int] is Type {
                                    rt_views(before).push(analyze_spec(args@[i as int]->Type_0, db))
                                } else {
                                    rt_views(before)
                                }));
                            }
                            i = i + 1;
                        }
                        proof {
                            let x = arg_results(args@, db);
                            assert(x.subrange(0, args@.len() as int) =~= x);
                        }
                        Ok(Self::analyze_generic(segs, &last.ident, types, db))
                    },
                    _ => {
                        let is_scalar = match Self::is_scalar(segs, db) {
                            Ok(b) => b,
                            Err(e) => return Err(e),
                        };
                        if is_scalar {
                            Ok(ReturnType::Scalar { name: last.ident.clone() })
                        } else {
                            Ok(ReturnType::Struct { name: last.ident.clone() })
                        }
                    },
                }
            },
            TypeExpr::Tuple(elems) => {
                if elems.len() == 0 {
                    return Ok(ReturnType::Unit);
                }
                let mut out: Vec<ReturnType> = Vec::new();
                let mut i: usize = 0;
                while i < elems.len()
                    invariant
                        i <= elems@.len(),
                        *ty == TypeExpr::Tuple(*elems),
                        out@.len() == i,
                        forall|j: int| 0 <= j < i ==> (#[trigger] out@[j])@ == analyze_spec(elems@[j], db),
                    decreases elems@.len() - i,
                {
                    proof {
                        assert(decreases_to!(*ty => ty->Tuple_0));
                        assert(decreases_to!(ty->Tuple_0 => ty->Tuple_0@));
                        assert(decreases_to!(ty->Tuple_0@ => ty->Tuple_0@[i as int]));
                    }
                    let v = match Self::analyze_type(&elems[i], db) {
                        Ok(t) => t,
                        Err(_) => ReturnType::Unknown { name: string_of("tuple_element_error") },
                    };
                    out.push(v);
                    i = i + 1;
                }
                let r = ReturnType::Tuple { elements: out };
                proof {
                    assert(r@->Tuple_0 =~= analyze_spec(*ty, db)->Tuple_0);
                }
                Ok(r)
            },
            TypeExpr::ImplTrait(bounds) => {
                match find_bound_item(bounds, "Stream") {
                    Some(item) => {
                        proof {
                            let m = first_match(bounds@, |b: TypeBound| is_bound_with_item(b, "Stream"@));
                            lemma_first_match_found(bounds@, |b: TypeBound| is_bound_with_item(b, "Stream"@));
                            assert(is_bound_with_item(bounds@[m as int], "Stream"@));
                            let p = bounds@[m as int]->Trait_0;
                            let args = p@.last().arguments->AngleBracketed_0;
                            let k = first_match(args@, |a: GenericArgument| is_item_arg(a));
                            lemma_first_match_found(args@, |a: GenericArgument| is_item_arg(a));
                            assert(is_item_arg(args@[k as int]));
                            assert(p@.len() > 0);
                            assert(decreases_to!(*ty => ty->ImplTrait_0));
                            assert(decreases_to!(ty->ImplTrait_0 => ty->ImplTrait_0@));
                            assert(decreases_to!(ty->ImplTrait_0@ => ty->ImplTrait_0@[m as int]));
                            assert(decreases_to!(bounds@[m as int] => p));
                            assert(decreases_to!(p => p@));
                            assert(decreases_to!(p@ => p@[p@.len() - 1]));
                            assert(decreases_to!(p@[p@.len() - 1] => p@[p@.len() - 1].arguments));
                            assert(decreases_to!(p@[p@.len() - 1].arguments => args));
                            assert(decreases_to!(args => args@));
                            assert(decreases_to!(args@ => args@[k as int]));
                            assert(decreases_to!(args@[k as int] => args@[k as int]->AssocType_1));
                        }
                        let v = match Self::analyze_type(item, db) {
                            Ok(v) => v,
                            Err(e) => return Err(e),
                        };
                        Ok(ReturnType::Stream { item_type: Box::new(v) })
                    },
                    None => Ok(ReturnType::Unknown { name: string_of("ImplTrait") }),
                }
            },
            _ => Ok(ReturnType::Unknown { name: string_of("UnknownType") }),
        }
    }
}

impl TypeAnalyzer {
    /// The query macro for a classification; never an error.
    pub fn determine_query_strategy(rust_type: &ReturnType) -> (r: Result<QueryType, MacroError>)
        ensures
            r == Ok::<QueryType, MacroError>(query_strategy_spec(rust_type@)),
        decreases rust_type,
    {
        match rust_type {
            ReturnType::Result { ok_type, .. } => Self::determine_query_strategy(&**ok_type),
            ReturnType::Unit => Ok(QueryType::Query),
            ReturnType::Scalar { .. } => Ok(QueryType::QueryScalar),
            ReturnType::Struct { .. } => Ok(QueryType::QueryAs),
            ReturnType::Tuple { .. } => Ok(QueryType::QueryAs),
            ReturnType::Vec { element_type } => {
                if is_u8_scalar_type(&**element_type) {
                    assert(rust_type@ == ReturnTypeView::Vec(Box::new((**element_type)@)));
                    Ok(QueryType::QueryScalar)
                } else {
                    Self::determine_query_strategy(&**element_type)
                }
            },
            ReturnType::Option { inner_type } => {
                let bytes = match &**inner_type {
                    ReturnType::Vec { element_type } => is_u8_scalar_type(&**element_type),
                    _ => false,
                };
                if bytes {
                    assert(rust_type@ == ReturnTypeView::Option(Box::new((**inner_type)@)));
                    Ok(QueryType::QueryScalar)
                } else {
                    Self::determine_query_strategy(&**inner_type)
                }
            },
            ReturnType::Stream { item_type } => Self::determine_query_strategy(&**item_type),
            ReturnType::Unknown { .. } => Ok(QueryType::Query),
        }
    }

    /// How rows are fetched for a classification.
    pub fn determine_fetch_method(rust_type: &ReturnType) -> (r: FetchMethod)
        ensures
            r == fetch_method_spec(rust_type@),
        decreases rust_type,
    {
        match rust_type {
            ReturnType::Result { ok_type, .. } => Self::determine_fetch_method(&**ok_type),
            ReturnType::Unit => FetchMethod::Execute,
            ReturnType::Struct { name } => {
                let n = name.as_str();
                if str_eq(n, "Serial") || str_eq(n, "Slice") || str_eq(n, "Cursor") {
                    FetchMethod::FetchAll
                } else if ends_with(n, "QueryResult") {
                    FetchMethod::Execute
                } else {
                    FetchMethod::FetchOne
                }
            },
            ReturnType::Vec { .. } => FetchMethod::FetchAll,
            ReturnType::Option { .. } => FetchMethod::FetchOptional,
            ReturnType::Stream { .. } => FetchMethod::Fetch,
            _ => FetchMethod::FetchOne,
        }
    }

    /// Whether the type is a path ending with `Bytes`.
    pub fn is_bytes_type(param_type: &TypeExpr) -> (r: bool)
        ensures
            r == is_path_named(*param_type, "Bytes"@),
    {
        match param_type {
            TypeExpr::Path(p) => path_ends_with(p, "Bytes"),
            _ => false,
        }
    }

    /// `T` for `Vec<T>`: `Vec<String>` gives `String`, `String` gives nothing.
    pub fn get_vec_inner_type(ty: &TypeExpr) -> (r: Option<&TypeExpr>)
        ensures
            match vec_inner_spec(*ty) {
                Some(t) => r matches Some(x) && *x == t,
                None => r is None,
            },
    {
        match ty {
            TypeExpr::Path(p) => {
                if !path_ends_with(p, "Vec") {
                    return None;
                }
                first_type_arg(p)
            },
            _ => None,
        }
    }

    /// The element type of an iterable parameter: `Vec<T>`, `&[T]`,
    /// `&mut [T]`, `[T; N]` or `impl IntoIterator<Item = T>`.
    pub fn get_iterable_inner_type(ty: &TypeExpr) -> (r: Option<&TypeExpr>)
        ensures
            match iterable_inner_spec(*ty) {
                Some(t) => r matches Some(x) && *x == t,
                None => r is None,
            },
    {
        match ty {
            TypeExpr::Path(_) => Self::get_vec_inner_type(ty),
            TypeExpr::Reference(_, e) => match &**e {
                TypeExpr::Slice(x) => Some(&**x),
                _ => None,
            },
            TypeExpr::Array(e) => Some(&**e),
            TypeExpr::ImplTrait(bounds) => Self::extract_into_iterator_item_type(bounds),
            _ => None,
        }
    }

    /// The `Item` type of the first `IntoIterator<Item = T>` bound.
    pub fn extract_into_iterator_item_type(bounds: &Vec<TypeBound>) -> (r: Option<&TypeExpr>)
        ensures
            match into_iterator_item_spec(bounds@) {
                Some(t) => r matches Some(x) && *x == t,
                None => r is None,
            },
    {
        find_bound_item(bounds, "IntoIterator")
    }

    /// Whether the type is a tuple.
    pub fn is_tuple_type(ty: &TypeExpr) -> (r: bool)
        ensures
            r == (*ty is Tuple),
    {
        match ty {
            TypeExpr::Tuple(_) => true,
            _ => false,
        }
    }

    /// Whether a parameter is an iterable of tuples, for multi-row inserts:
    /// `Vec<(i64, String)>`, `impl IntoIterator<Item = (i64, String, u8)>`,
    /// or `I` with `I: IntoIterator<Item = (..)>` in the `where` clause.
    pub fn is_tuple_iterable_type(ty: &TypeExpr, generics: &Generics) -> (r: bool)
        ensures
            r == is_tuple_iterable_spec(*ty, *generics),
    {
        if let Some(inner) = Self::get_iterable_inner_type(ty) {
            return Self::is_tuple_type(inner);
        }
        if let TypeExpr::Path(segs) = ty {
            if segs.len() == 1 {
                let name = segs[0].ident.as_str();
                return Self::extract_tuple_from_where_clause(generics, name).is_some();
            }
        }
        false
    }

    /// Whether the type is exactly `Vec<u8>` (by last segments).
    pub fn is_vec_u8_type(ty: &TypeExpr) -> (r: bool)
        ensures
            r == (vec_inner_spec(*ty) matches Some(t) && is_u8_path(t)),
    {
        match Self::get_vec_inner_type(ty) {
            Some(inner) => Self::is_path_u8(inner),
            None => false,
        }
    }

    /// Whether the type is a path ending with `u8` (`u8`, `std::u8`, ...).
    fn is_path_u8(ty: &TypeExpr) -> (r: bool)
        ensures
            r == is_u8_path(*ty),
    {
        match ty {
            TypeExpr::Path(p) => path_ends_with(p, "u8"),
            _ => false,
        }
    }

    /// Whether the type is already wrapped in `Json<..>`.
    pub fn is_already_json_wrapped(param_type: &TypeExpr) -> (r: bool)
        ensures
            r == is_path_named(*param_type, "Json"@),
    {
        match param_type {
            TypeExpr::Path(p) => path_ends_with(p, "Json"),
            _ => false,
        }
    }

    /// `T` for `impl Into<T>`.
    pub fn extract_impl_into_type(param_type: &TypeExpr) -> (r: Option<&TypeExpr>)
        ensures
            match impl_into_spec(*param_type) {
                Some(t) => r matches Some(x) && *x == t,
                None => r is None,
            },
    {
        let bounds = match param_type {
            TypeExpr::ImplTrait(bounds) => bounds,
            _ => return None,
        };
        let mut i: usize = 0;
        while i < bounds.len()
            invariant
                i <= bounds@.len(),
                *param_type == TypeExpr::ImplTrait(*bounds),
                forall|j: int| 0 <= j < i ==> !is_into_bound(#[trigger] bounds@[j]),
            decreases bounds@.len() - i,
        {
            if let TypeBound::Trait(p) = &bounds[i] {
                if path_ends_with(p, "Into") {
                    if let Some(t) = first_type_arg(p) {
                        proof { lemma_first_match(bounds@, |b: TypeBound| is_into_bound(b), i as int); }
                        return Some(t);
                    }
                }
            }
            i = i + 1;
        }
        proof { lemma_first_match(bounds@, |b: TypeBound| is_into_bound(b), i as int); }
        None
    }

    /// The tuple item type that the `where` clause gives the generic parameter
    /// `param_name`: for `I` with `I: IntoIterator<Item = (i64, String)>`,
    /// `(i64, String)`.
    pub fn extract_tuple_from_where_clause<'a>(generics: &'a Generics, param_name: &str) -> (r: Option<&'a TypeExpr>)
        ensures
            match where_tuple_spec(*generics, param_name@) {
                Some(t) => r matches Some(x) && *x == t,
                None => r is None,
            },
    {
        let preds = match &generics.where_clause {
            Some(preds) => preds,
            None => return None,
        };
        let mut i: usize = 0;
        while i < preds.len()
            invariant
                i <= preds@.len(),
                generics.where_clause == Some(*preds),
                forall|j: int| 0 <= j < i ==> !is_tuple_iter_predicate(#[trigger] preds@[j], param_name@),
            decreases preds@.len() - i,
        {
            if let WherePredicate::Type(bt, bounds) = &preds[i] {
                let named = match bt {
                    TypeExpr::Path(p) => path_ends_with(p, param_name),
                    _ => false,
                };
                if named {
                    let m = find_tuple_iter_bound(bounds);
                    if m < bounds.len() {
                        proof {
                            lemma_first_match(preds@, |p: WherePredicate| is_tuple_iter_predicate(p, param_name@), i as int);
                        }
                        return tuple_item_of(&bounds[m]);
                    }
                }
            }
            i = i + 1;
        }
        proof {
            lemma_first_match(preds@, |p: WherePredicate| is_tuple_iter_predicate(p, param_name@), i as int);
        }
        None
    }

    /// Whether the path's last segment is `name`.
    pub fn path_ends_with(path: &Vec<PathSegment>, name: &str) -> (r: bool)
        ensures
            r == ends_with_ident(path@, name@),
    {
        path_ends_with(path, name)
    }

    /// Whether the path's last segment is one of `names`.
    pub fn ends_with_any(path: &Vec<PathSegment>, names: &[&str]) -> (r: bool)
        ensures
            r == exists|i: int| 0 <= i < names@.len() && ends_with_ident(path@, (#[trigger] names@[i])@),
    {
        let mut i: usize = 0;
        while i < names.len()
            invariant
                i <= names@.len(),
                forall|j: int| 0 <= j < i ==> !ends_with_ident(path@, (#[trigger] names@[j])@),
            decreases names@.len() - i,
        {
            if path_ends_with(path, names[i]) {
                return true;
            }
            i = i + 1;
        }
        false
    }

    /// Whether two types are written the same.
    pub fn types_equal(a: &TypeExpr, b: &TypeExpr) -> (r: bool)
        ensures
            r == (a@ == b@),
    {
        a.same_as(b)
    }
}

/// Decisions on reading columns into Rust types.
pub struct TypeCastingAnalyzer;

impl TypeCastingAnalyzer {
    /// Whether a column read as `target_type` needs a cast from what the
    /// database hands back.
    pub fn needs_casting(target_type: &TypeExpr, db: Database) -> (r: bool)
        ensures
            r == (target_type@ != native_type_spec(*target_type, db)),
    {
        let native = Self::native_type(target_type, db);
        !TypeAnalyzer::types_equal(target_type, &native)
    }

    /// `T` for `Option<T>`.
    pub fn extract_option_type(ty: &TypeExpr) -> (r: Option<&TypeExpr>)
        ensures
            match option_inner_spec(*ty) {
                Some(t) => r matches Some(x) && *x == t,
                None => r is None,
            },
    {
        match ty {
            TypeExpr::Path(p) => {
                if !path_ends_with(p, "Option") {
                    return None;
                }
                first_type_arg(p)
            },
            _ => None,
        }
    }

    /// The type the database hands back for a column read as `ty`.
    pub fn native_type(ty: &TypeExpr, db: Database) -> (r: TypeExpr)
        ensures
            r@ == native_type_spec(*ty, db),
    {
        if let TypeExpr::Path(segs) = ty {
            if segs.len() > 0 && db == Database::Sqlite {
                let n = segs[segs.len() - 1].ident.as_str();
                if str_eq(n, "u64") || str_eq(n, "u32") || str_eq(n, "u16") || str_eq(n, "u8")
                    || str_eq(n, "usize") || str_eq(n, "i32") || str_eq(n, "i16") || str_eq(n, "i8")
                    || str_eq(n, "isize") || str_eq(n, "bool") {
                    return simple_path("i64");
                } else if str_eq(n, "f32") {
                    return simple_path("f64");
                }
            }
        }
        ty.copy()
    }
}

/// The single-segment path type `name`.
pub fn simple_path(name: &str) -> (r: TypeExpr)
    ensures
        r@ == simple_path_view(name@),
{
    let mut segs: Vec<PathSegment> = Vec::new();
    segs.push(PathSegment { ident: string_of(name), arguments: PathArguments::Bare });
    let r = TypeExpr::Path(segs);
    proof {
        let seg = segs@[0];
        assert(seg.segment_view() == SegmentView { ident: name@, arguments: ArgumentsView::Bare });
        assert(path_view(segs@).len() == 1);
        assert(path_view(segs@)[0] == seg.segment_view());
        assert(path_view(segs@) =~= simple_path_view(name@)->Path_0);
    }
    r
}

/// Whether a classification is the scalar `u8`.
fn is_u8_scalar_type(t: &ReturnType) -> (r: bool)
    ensures
        r == is_u8_scalar(t@),
{
    match t {
        ReturnType::Scalar { name } => str_eq(name.as_str(), "u8"),
        _ => false,
    }
}

/// The first angle-bracket argument of the path's last segment, if it is a type.
pub(crate) fn first_type_arg(p: &Vec<PathSegment>) -> (r: Option<&TypeExpr>)
    ensures
        match first_type_arg_spec(p@) {
            Some(t) => r matches Some(x) && *x == t,
            None => r is None,
        },
{
    if p.len() == 0 {
        return None;
    }
    match &p[p.len() - 1].arguments {
        PathArguments::AngleBracketed(args) => {
            if args.len() == 0 {
                return None;
            }
            match &args[0] {
                GenericArgument::Type(t) => Some(t),
                _ => None,
            }
        },
        _ => None,
    }
}

/// Index of the first `IntoIterator<Item = (..)>` bound, or `bounds.len()`.
fn find_tuple_iter_bound(bounds: &Vec<TypeBound>) -> (r: usize)
    ensures
        r == first_match(bounds@, |b: TypeBound| is_tuple_iter_bound(b)),
        r <= bounds@.len(),
        r < bounds@.len() ==> is_tuple_iter_bound(bounds@[r as int]),
{
    let mut i: usize = 0;
    while i < bounds.len()
        invariant
            i <= bounds@.len(),
            forall|j: int| 0 <= j < i ==> !is_tuple_iter_bound(#[trigger] bounds@[j]),
        decreases bounds@.len() - i,
    {
        if let TypeBound::Trait(p) = &bounds[i] {
            if path_ends_with(p, "IntoIterator") {
                if let PathArguments::AngleBracketed(args) = &p[p.len() - 1].arguments {
                    if find_tuple_item_arg(args) < args.len() {
                        proof { lemma_first_match(bounds@, |b: TypeBound| is_tuple_iter_bound(b), i as int); }
                        return i;
                    }
                }
            }
        }
        i = i + 1;
    }
    proof { lemma_first_match(bounds@, |b: TypeBound| is_tuple_iter_bound(b), i as int); }
    i
}

/// Index of the first `Item = (..)` or `Item = &(..)` argument, or `args.len()`.
fn find_tuple_item_arg(args: &Vec<GenericArgument>) -> (r: usize)
    ensures
        r == first_match(args@, |a: GenericArgument| is_tuple_item_arg(a)),
        r <= args@.len(),
        r < args@.len() ==> is_tuple_item_arg(args@[r as int]),
{
    let mut i: usize = 0;
    while i < args.len()
        invariant
            i <= args@.len(),
            forall|j: int| 0 <= j < i ==> !is_tuple_item_arg(#[trigger] args@[j]),
        decreases args@.len() - i,
    {
        if let GenericArgument::AssocType(n, t) = &args[i] {
            if str_eq(n.as_str(), "Item") {
                let hit = match t {
                    TypeExpr::Tuple(_) => true,
                    TypeExpr::Reference(_, e) => match &**e {
                        TypeExpr::Tuple(_) => true,
                        _ => false,
                    },
                    _ => false,
                };
                if hit {
                    proof { lemma_first_match(args@, |a: GenericArgument| is_tuple_item_arg(a), i as int); }
                    return i;
                }
            }
        }
        i = i + 1;
    }
    proof { lemma_first_match(args@, |a: GenericArgument| is_tuple_item_arg(a), i as int); }
    i
}

/// The tuple item of a bound that `is_tuple_iter_bound` accepts.
fn tuple_item_of(b: &TypeBound) -> (r: Option<&TypeExpr>)
    ensures
        is_tuple_iter_bound(*b) ==> (r matches Some(x) && *x == tuple_iter_item(*b)),
{
    if let TypeBound::Trait(p) = b {
        if p.len() > 0 {
            if let PathArguments::AngleBracketed(args) = &p[p.len() - 1].arguments {
                let k = find_tuple_item_arg(args);
                if k < args.len() {
                    if let GenericArgument::AssocType(_, t) = &args[k] {
                        return Some(t);
                    }
                }
            }
        }
    }
    None
}

/// Whether `n` is a built-in scalar type name.
fn basic_scalar_name(n: &str) -> (r: bool)
    ensures
        r == is_basic_scalar_name(n@),
{
    str_eq(n, "i8") || str_eq(n, "i16") || str_eq(n, "i32") || str_eq(n, "i64") || str_eq(n, "i128")
        || str_eq(n, "u8") || str_eq(n, "u16") || str_eq(n, "u32") || str_eq(n, "u64") || str_eq(n, "u128")
        || str_eq(n, "f32") || str_eq(n, "f64") || str_eq(n, "bool") || str_eq(n, "char")
        || str_eq(n, "usize") || str_eq(n, "isize") || str_eq(n, "String")
}

/// Whether `n` is a library scalar type name.
fn common_scalar_name(n: &str) -> (r: bool)
    ensures
        r == is_common_scalar_name(n@),
{
    str_eq(n, "Cow") || str_eq(n, "Uuid") || str_eq(n, "Hyphenated") || str_eq(n, "Simple")
        || str_eq(n, "Decimal") || str_eq(n, "BigDecimal") || str_eq(n, "Time") || str_eq(n, "Date")
        || str_eq(n, "DateTime") || str_eq(n, "NaiveDateTime") || str_eq(n, "NaiveDate")
        || str_eq(n, "NaiveTime") || str_eq(n, "PrimitiveDateTime") || str_eq(n, "OffsetDateTime")
        || str_eq(n, "Timestamp") || str_eq(n, "Span") || str_eq(n, "MacAddress") || str_eq(n, "Blob")
        || str_eq(n, "IpNet") || str_eq(n, "Ipv4Net") || str_eq(n, "Ipv6Net") || str_eq(n, "IpNetwork")
        || str_eq(n, "BitVec") || str_eq(n, "BString") || str_eq(n, "JsonValue")
}

/// Whether `n` is a PostgreSQL scalar type name.
fn pg_scalar_name(n: &str) -> (r: bool)
    ensures
        r == is_pg_scalar_name(n@),
{
    str_eq(n, "PgInterval") || str_eq(n, "PgMoney") || str_eq(n, "PgLTree") || str_eq(n, "PgLQuery")
        || str_eq(n, "PgCiText") || str_eq(n, "PgCube") || str_eq(n, "PgPoint") || str_eq(n, "PgLine")
        || str_eq(n, "PgLSeg") || str_eq(n, "PgBox") || str_eq(n, "PgPath") || str_eq(n, "PgPolygon")
        || str_eq(n, "PgCircle") || str_eq(n, "PgHstore") || str_eq(n, "PgTimeTz")
}

} // verus!
