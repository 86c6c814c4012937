//! Decisions taken when the code of a repository method is generated: which
//! generator writes the query call, how each argument is passed to the
//! query (converted, borrowed, wrapped as JSON), which arguments are left
//! out of tracing, and the documentation of the generated code.
use vstd::prelude::*;
use crate::analysis::{
    TypeAnalyzer, TypeCastingAnalyzer, QueryType, FetchMethod, analyze_spec, query_strategy_spec, fetch_method_spec,
    option_inner_spec, impl_into_spec, vec_inner_spec, is_u8_path, is_tuple_iterable_spec, is_path_named,
    is_scalar_spec,
};
use crate::database::Database;
use crate::error::MacroError;
use crate::dml::{DmlMethod, is_stream_spec, first_type_arg_of, type_name_of};
use crate::analysis::is_pagination_name;
use crate::syntax::{
    TypeExpr, TypeView, PathSegment, PathArguments, GenericArgument, Generics, SegmentView, ArgumentsView,
    ArgumentView, ends_with_ident, path_ends_with, path_view,
};
use crate::text::{string_of, contains_str, contains_seq, str_eq};

verus! {

/// How an argument is wrapped before it is bound.
#[derive(Debug, Clone, Copy, PartialEq, Eq, Structural)]
pub enum ParamWrapper {
    /// Bound as it is.
    Unwrapped,
    /// As JSON (`serde_json::Value` on PostgreSQL, `sqlx::types::Json<T>` elsewhere).
    Json,
    /// `Bytes` as `Vec<u8>`.
    BytesToVec,
}

/// Whether a type is `Vec<u8>` (by last segments).
pub open spec fn is_vec_u8_spec(t: TypeExpr) -> bool {
    vec_inner_spec(t) matches Some(x) && is_u8_path(x)
}

/// Whether a type needs no wrapping because it already is one: `Json<..>`
/// or `Vec<u8>`.
pub open spec fn is_already_decorated_spec(t: TypeExpr) -> bool {
    is_path_named(t, "Json"@) || is_vec_u8_spec(t)
}

/// The wrapper of a type that is neither `Option<..>` nor `impl Into<..>`:
/// none for decorated types, scalars, `&str`/`&String`, non-path references
/// and JSON values; `Vec<u8>` for `Bytes`; JSON for the rest of a `json`
/// method.
pub open spec fn base_wrapper_spec(t: TypeExpr, json: bool, db: Database) -> ParamWrapper {
    if is_already_decorated_spec(t) {
        ParamWrapper::Unwrapped
    } else if is_path_named(t, "Bytes"@) {
        ParamWrapper::BytesToVec
    } else if t matches TypeExpr::Path(segs) && is_scalar_spec(segs@, db) {
        ParamWrapper::Unwrapped
    } else if t matches TypeExpr::Reference(_, e) && (!(*e is Path) || is_path_named(*e, "str"@) || is_path_named(*e, "String"@)) {
        ParamWrapper::Unwrapped
    } else if is_path_named(t, "Value"@) || is_path_named(t, "JsonValue"@) {
        ParamWrapper::Unwrapped
    } else if json {
        ParamWrapper::Json
    } else {
        ParamWrapper::Unwrapped
    }
}

/// A plain path segment.
pub open spec fn bare(name: Seq<char>) -> SegmentView {
    SegmentView { ident: name, arguments: ArgumentsView::Bare }
}

/// A path segment with one type argument.
pub open spec fn with_type_arg(name: Seq<char>, arg: TypeView) -> SegmentView {
    SegmentView { ident: name, arguments: ArgumentsView::AngleBracketed(seq![ArgumentView::Type(arg)]) }
}

/// The type a wrapper gives.
pub open spec fn apply_wrapper_spec(t: TypeExpr, w: ParamWrapper, db: Database) -> TypeView {
    match w {
        ParamWrapper::Json => if db is Postgres {
            TypeView::Path(seq![bare("serde_json"@), bare("Value"@)])
        } else {
            TypeView::Path(seq![bare("sqlx"@), bare("types"@), with_type_arg("Json"@, t@)])
        },
        ParamWrapper::BytesToVec => TypeView::Path(seq![with_type_arg("Vec"@, TypeView::Path(seq![bare("u8"@)]))]),
        ParamWrapper::Unwrapped => t@,
    }
}

/// Whether a `Vec<T>` argument is passed as a slice `&[T]`: not for `json`
/// methods, `Vec<u8>` or iterables of tuples.
pub open spec fn passes_as_slice(t: TypeExpr, json: bool, g: Generics) -> bool {
    !json && vec_inner_spec(t) is Some && !is_vec_u8_spec(t) && !is_tuple_iterable_spec(t, g)
}

/// The type an argument of a type that is not `Option<..>` is bound as:
/// `impl Into<T>` as `T`; then `Vec<T>` as `&[T]` (see `passes_as_slice`),
/// or wrapped when `decorate`.
pub open spec fn transform_base_spec(t: TypeExpr, decorate: bool, json: bool, g: Generics, db: Database) -> TypeView {
    let ty = match impl_into_spec(t) {
        Some(x) => x,
        None => t,
    };
    if passes_as_slice(ty, json, g) {
        TypeView::Reference(false, Box::new(TypeView::Slice(Box::new(vec_inner_spec(ty)->0@))))
    } else if decorate {
        apply_wrapper_spec(ty, base_wrapper_spec(ty, json, db), db)
    } else {
        ty@
    }
}

/// The type an argument is bound as: `Option<T>` as `Option` of what `T`
/// is bound as, other types as `transform_base_spec` says.
pub open spec fn transform_spec(t: TypeExpr, decorate: bool, json: bool, g: Generics, db: Database) -> TypeView
    decreases t,
{
    let inner = match t {
        TypeExpr::Path(segs) => if ends_with_ident(segs@, "Option"@) {
            match segs@.last().arguments {
                PathArguments::AngleBracketed(args) => if args@.len() > 0 {
                    match args@[0] {
                        GenericArgument::Type(x) => Some(transform_spec(x, decorate, json, g, db)),
                        _ => None,
                    }
                } else {
                    None
                },
                _ => None,
            }
        } else {
            None
        },
        _ => None,
    };
    match inner {
        Some(v) => TypeView::Path(seq![with_type_arg("Option"@, v)]),
        None => transform_base_spec(t, decorate, json, g, db),
    }
}

/// Whether passing an argument takes more than using it as it is: `.into()`,
/// a borrow as a slice, or a wrapper.
pub open spec fn needs_transformation_spec(t: TypeExpr, decorate: bool, json: bool, g: Generics, db: Database) -> bool {
    impl_into_spec(t) is Some || passes_as_slice(t, json, g) || (decorate && base_wrapper_spec(t, json, db) != ParamWrapper::Unwrapped)
}

/// How an argument `name` is passed to the query.
#[derive(Debug, Clone, Copy, PartialEq, Eq, Structural)]
pub enum ParamCall {
    /// `name`, wrapped.
    Wrapped(ParamWrapper),
    /// `name.into()`, wrapped.
    Into(ParamWrapper),
    /// `&name`.
    Borrow,
    /// `name.as_deref()`.
    AsDeref,
    /// `name.map(|inner| ..)`: `inner` (or `inner.into()` when the flag is
    /// set), wrapped.
    MapOption(bool, ParamWrapper),
}

/// The wrapper used when `decorate`, otherwise none.
pub open spec fn wrapper_if(decorate: bool, t: TypeExpr, json: bool, db: Database) -> ParamWrapper {
    if decorate { base_wrapper_spec(t, json, db) } else { ParamWrapper::Unwrapped }
}

/// How an argument of type `t` is passed: an `Option<T>` whose `T` needs
/// no transformation as it is, otherwise mapped (with `.into()` for
/// `Option<impl Into<T>>`) or, for `Option<Vec<T>>`, with `as_deref`;
/// `impl Into<T>` with `.into()`; `Vec<T>` borrowed; the rest wrapped.
pub open spec fn param_call_spec(t: TypeExpr, decorate: bool, json: bool, g: Generics, db: Database) -> ParamCall {
    match option_inner_spec(t) {
        Some(inner) => if !needs_transformation_spec(inner, decorate, json, g, db) {
            ParamCall::Wrapped(ParamWrapper::Unwrapped)
        } else if impl_into_spec(inner) is Some {
            ParamCall::MapOption(true, wrapper_if(decorate, impl_into_spec(inner)->0, json, db))
        } else if !json && vec_inner_spec(inner) is Some && !is_vec_u8_spec(inner) {
            ParamCall::AsDeref
        } else {
            ParamCall::MapOption(false, wrapper_if(decorate, inner, json, db))
        },
        None => match impl_into_spec(t) {
            Some(inner) => ParamCall::Into(wrapper_if(decorate, inner, json, db)),
            None => if passes_as_slice(t, json, g) {
                ParamCall::Borrow
            } else {
                ParamCall::Wrapped(wrapper_if(decorate, t, json, db))
            },
        },
    }
}

/// The generator that writes a method's query call.
#[derive(Debug, Clone, Copy, PartialEq, Eq, Structural)]
pub enum GeneratorKind {
    MultiRowInsert,
    Stream,
    Paginated,
    QueryAs,
    QueryScalar,
    Query,
}

/// The generator for a method: multi-row inserts, then streams, then
/// pagination types; otherwise by the query macro.
pub open spec fn generator_spec(multi_insert: bool, stream: bool, paginated: bool, q: QueryType) -> GeneratorKind {
    if multi_insert {
        GeneratorKind::MultiRowInsert
    } else if stream {
        GeneratorKind::Stream
    } else if paginated {
        GeneratorKind::Paginated
    } else {
        match q {
            QueryType::QueryAs => GeneratorKind::QueryAs,
            QueryType::QueryScalar => GeneratorKind::QueryScalar,
            QueryType::Query => GeneratorKind::Query,
        }
    }
}

/// The patterns that keep a parameter out of tracing.
pub open spec fn tracing_patterns() -> Seq<Seq<char>> {
    seq![
        "implInto<"@, "implAsRef<"@, "implAsMut<"@, "implDeref<"@, "implDerefMut<"@, "Connection"@, "Pool"@,
        "Executor"@, "Transaction"@, "&mut"@, "Vec<"@, "HashMap<"@, "BTreeMap<"@, "Bytes"@, "BytesMut"@, "[u8"@,
        "Blob"@,
    ]
}

/// `s` without its spaces.
pub open spec fn without_spaces(s: Seq<char>) -> Seq<char> {
    s.filter(|c: char| c != ' ')
}

/// The documentation of generated code.
pub open spec fn doc_comment_spec(code: Seq<char>) -> Seq<char> {
    "Generated by #[dml] macro:\n\n```rust\n"@ + code + "\n```"@
}

/// A plain path segment.
fn bare_segment(name: &str) -> (r: PathSegment)
    ensures
        r.segment_view() == bare(name@),
{
    PathSegment { ident: string_of(name), arguments: PathArguments::Bare }
}

/// A path segment with one type argument.
fn type_arg_segment(name: &str, t: TypeExpr) -> (r: PathSegment)
    ensures
        r.segment_view() == with_type_arg(name@, t@),
{
    let mut args: Vec<GenericArgument> = Vec::new();
    let ghost tv = t@;
    args.push(GenericArgument::Type(t));
    let r = PathSegment { ident: string_of(name), arguments: PathArguments::AngleBracketed(args) };
    assert(r.arguments.arguments_view()->AngleBracketed_0 =~= seq![ArgumentView::Type(tv)]);
    r
}

/// A path type from its segments.
fn path_of(segs: Vec<PathSegment>) -> (r: TypeExpr)
    ensures
        r@ == TypeView::Path(path_view(segs@)),
{
    TypeExpr::Path(segs)
}

/// Choices about how arguments are bound.
pub struct FetchCallGenerator;

impl FetchCallGenerator {
    /// Whether the type already is a wrapper (`Json<..>`, `Vec<u8>`).
    pub fn is_already_decorated(param_type: &TypeExpr) -> (r: bool)
        ensures
            r == is_already_decorated_spec(*param_type),
    {
        TypeAnalyzer::is_already_json_wrapped(param_type) || TypeAnalyzer::is_vec_u8_type(param_type)
    }

    /// The wrapper of a base type (see `base_wrapper_spec`).
    pub fn get_base_wrapper(param_type: &TypeExpr, method: &DmlMethod, db: Database) -> (r: ParamWrapper)
        ensures
            r == base_wrapper_spec(*param_type, method.is_json_query, db),
    {
        if Self::is_already_decorated(param_type) {
            return ParamWrapper::Unwrapped;
        }
        if TypeAnalyzer::is_bytes_type(param_type) {
            return ParamWrapper::BytesToVec;
        }
        if let TypeExpr::Path(segs) = param_type {
            match TypeAnalyzer::is_scalar(segs, db) {
                Ok(true) => return ParamWrapper::Unwrapped,
                _ => {},
            }
        }
        if let TypeExpr::Reference(_, e) = param_type {
            match &**e {
                TypeExpr::Path(p) => {
                    if path_ends_with(p, "str") || path_ends_with(p, "String") {
                        return ParamWrapper::Unwrapped;
                    }
                },
                _ => return ParamWrapper::Unwrapped,
            }
        }
        if let TypeExpr::Path(p) = param_type {
            if path_ends_with(p, "Value") || path_ends_with(p, "JsonValue") {
                return ParamWrapper::Unwrapped;
            }
        }
        if method.is_json_query {
            return ParamWrapper::Json;
        }
        ParamWrapper::Unwrapped
    }

    /// The type a wrapper gives.
    pub fn apply_wrapper_to_type(param_type: &TypeExpr, wrapper: ParamWrapper, db: Database) -> (r: TypeExpr)
        ensures
            r@ == apply_wrapper_spec(*param_type, wrapper, db),
    {
        match wrapper {
            ParamWrapper::Json => {
                let mut segs: Vec<PathSegment> = Vec::new();
                if db == Database::Postgres {
                    segs.push(bare_segment("serde_json"));
                    segs.push(bare_segment("Value"));
                    let r = path_of(segs);
                    assert(path_view(segs@) =~= seq![bare("serde_json"@), bare("Value"@)]);
                    r
                } else {
                    segs.push(bare_segment("sqlx"));
                    segs.push(bare_segment("types"));
                    segs.push(type_arg_segment("Json", param_type.copy()));
                    let r = path_of(segs);
                    assert(path_view(segs@) =~= seq![bare("sqlx"@), bare("types"@), with_type_arg("Json"@, param_type@)]);
                    r
                }
            },
            ParamWrapper::BytesToVec => {
                let mut u8_segs: Vec<PathSegment> = Vec::new();
                u8_segs.push(bare_segment("u8"));
                let u8_type = path_of(u8_segs);
                assert(path_view(u8_segs@) =~= seq![bare("u8"@)]);
                let mut segs: Vec<PathSegment> = Vec::new();
                let ghost uv = u8_type@;
                segs.push(type_arg_segment("Vec", u8_type));
                let r = path_of(segs);
                assert(path_view(segs@) =~= seq![with_type_arg("Vec"@, uv)]);
                r
            },
            ParamWrapper::Unwrapped => param_type.copy(),
        }
    }

    /// Whether passing the argument takes more than using it as it is.
    pub fn needs_transformation(param_type: &TypeExpr, needs_decoration: bool, method: &DmlMethod, db: Database) -> (r: bool)
        ensures
            r == needs_transformation_spec(*param_type, needs_decoration, method.is_json_query, method.generics, db),
    {
        if TypeAnalyzer::extract_impl_into_type(param_type).is_some() {
            return true;
        }
        if Self::passes_as_slice(param_type, method) {
            return true;
        }
        if needs_decoration {
            return Self::get_base_wrapper(param_type, method, db) != ParamWrapper::Unwrapped;
        }
        false
    }

    /// Whether a `Vec<T>` argument is passed as a slice.
    fn passes_as_slice(ty: &TypeExpr, method: &DmlMethod) -> (r: bool)
        ensures
            r == passes_as_slice(*ty, method.is_json_query, method.generics),
    {
        !method.is_json_query && TypeAnalyzer::get_vec_inner_type(ty).is_some() && !TypeAnalyzer::is_vec_u8_type(ty)
            && !TypeAnalyzer::is_tuple_iterable_type(ty, method.generics())
    }

    /// The type an argument that is not `Option<..>` is bound as.
    fn transform_base_type(param_type: &TypeExpr, needs_decoration: bool, method: &DmlMethod, db: Database) -> (r: TypeExpr)
        ensures
            r@ == transform_base_spec(*param_type, needs_decoration, method.is_json_query, method.generics, db),
    {
        let ty = match TypeAnalyzer::extract_impl_into_type(param_type) {
            Some(inner) => inner,
            None => param_type,
        };
        if Self::passes_as_slice(ty, method) {
            match TypeAnalyzer::get_vec_inner_type(ty) {
                Some(inner) => {
                    let c = inner.copy();
                    let ghost cv = c@;
                    let sl = TypeExpr::Slice(Box::new(c));
                    assert(sl@ == TypeView::Slice(Box::new(cv)));
                    let r = TypeExpr::Reference(false, Box::new(sl));
                    assert(r@ == TypeView::Reference(false, Box::new(TypeView::Slice(Box::new(cv)))));
                    return r;
                },
                None => {},
            }
        }
        if needs_decoration {
            let w = Self::get_base_wrapper(ty, method, db);
            Self::apply_wrapper_to_type(ty, w, db)
        } else {
            ty.copy()
        }
    }

    /// The type an argument is bound as (see `transform_spec`).
    pub fn transform_param_type(param_type: &TypeExpr, needs_decoration: bool, method: &DmlMethod, db: Database) -> (r: TypeExpr)
        ensures
            r@ == transform_spec(*param_type, needs_decoration, method.is_json_query, method.generics, db),
        decreases param_type,
    {
        if let TypeExpr::Path(segs) = param_type {
            if path_ends_with(segs, "Option") {
                if let PathArguments::AngleBracketed(args) = &segs[segs.len() - 1].arguments {
                    if args.len() > 0 {
                        if let GenericArgument::Type(x) = &args[0] {
                            proof {
                                let last = segs@[segs@.len() - 1];
                                assert(decreases_to!(*param_type => param_type->Path_0));
                                assert(decreases_to!(param_type->Path_0 => param_type->Path_0@));
                                assert(decreases_to!(param_type->Path_0@ => param_type->Path_0@[segs@.len() - 1]));
                                assert(decreases_to!(last => last.arguments));
                                assert(decreases_to!(last.arguments => last.arguments->AngleBracketed_0));
                                assert(decreases_to!(*args => args@));
                                assert(decreases_to!(args@ => args@[0]));
                                assert(decreases_to!(args@[0] => args@[0]->Type_0));
                            }
                            let inner = Self::transform_param_type(x, needs_decoration, method, db);
                            let ghost iv = inner@;
                            let mut out: Vec<PathSegment> = Vec::new();
                            out.push(type_arg_segment("Option", inner));
                            let r = path_of(out);
                            assert(path_view(out@) =~= seq![with_type_arg("Option"@, iv)]);
                            return r;
                        }
                    }
                }
            }
        }
        Self::transform_base_type(param_type, needs_decoration, method, db)
    }

    /// How an argument is passed to the query (see `param_call_spec`).
    pub fn transform_param_call(param_type: &TypeExpr, needs_decoration: bool, method: &DmlMethod, db: Database) -> (r: ParamCall)
        ensures
            r == param_call_spec(*param_type, needs_decoration, method.is_json_query, method.generics, db),
    {
        if let Some(inner) = TypeCastingAnalyzer::extract_option_type(param_type) {
            if !Self::needs_transformation(inner, needs_decoration, method, db) {
                return ParamCall::Wrapped(ParamWrapper::Unwrapped);
            }
            if let Some(into_inner) = TypeAnalyzer::extract_impl_into_type(inner) {
                return ParamCall::MapOption(true, Self::wrapper_if(needs_decoration, into_inner, method, db));
            }
            if !method.is_json_query && TypeAnalyzer::get_vec_inner_type(inner).is_some() && !TypeAnalyzer::is_vec_u8_type(inner) {
                return ParamCall::AsDeref;
            }
            return ParamCall::MapOption(false, Self::wrapper_if(needs_decoration, inner, method, db));
        }
        if let Some(inner) = TypeAnalyzer::extract_impl_into_type(param_type) {
            return ParamCall::Into(Self::wrapper_if(needs_decoration, inner, method, db));
        }
        if Self::passes_as_slice(param_type, method) {
            return ParamCall::Borrow;
        }
        ParamCall::Wrapped(Self::wrapper_if(needs_decoration, param_type, method, db))
    }

    /// The wrapper used when `needs_decoration`, otherwise none.
    fn wrapper_if(needs_decoration: bool, ty: &TypeExpr, method: &DmlMethod, db: Database) -> (r: ParamWrapper)
        ensures
            r == wrapper_if(needs_decoration, *ty, method.is_json_query, db),
    {
        if needs_decoration {
            Self::get_base_wrapper(ty, method, db)
        } else {
            ParamWrapper::Unwrapped
        }
    }
}

/// What the query call of a method is made of.
#[derive(Debug, Clone, Copy, PartialEq, Eq, Structural)]
pub struct GenerationPlan {
    pub query_type: QueryType,
    pub fetch_method: FetchMethod,
    pub generator: GeneratorKind,
}

/// The return type analysed for a method (`()` when it has none).
pub open spec fn analyzed_return(m: DmlMethod, db: Database) -> crate::analysis::ReturnTypeView {
    match m.output {
        Some(t) => analyze_spec(t, db),
        None => crate::analysis::ReturnTypeView::Unit,
    }
}

/// Choices about the query call of a method.
pub struct SqlxCallGenerator;

impl SqlxCallGenerator {
    /// The query macro, the fetch method and the generator of a method's
    /// query call.
    pub fn prepare_generation_plan(method: &DmlMethod, db: Database) -> (r: Result<GenerationPlan, MacroError>)
        ensures
            r matches Ok(p) && {
                let rt = analyzed_return(*method, db);
                &&& p.query_type == query_strategy_spec(rt)
                &&& p.fetch_method == fetch_method_spec(rt)
                &&& p.generator == generator_spec(
                    method.is_multi_insert,
                    method.output matches Some(t) && is_stream_spec(t),
                    method.output matches Some(t) && (type_name_of(first_type_arg_of(t)) matches Some(n) && is_pagination_name(n)),
                    query_strategy_spec(rt),
                )
            },
    {
        let return_type = match &method.output {
            Some(t) => match TypeAnalyzer::analyze_type(t, db) {
                Ok(rt) => rt,
                Err(e) => return Err(e),
            },
            None => crate::analysis::ReturnType::Unit,
        };
        let query_type = match TypeAnalyzer::determine_query_strategy(&return_type) {
            Ok(q) => q,
            Err(e) => return Err(e),
        };
        let fetch_method = TypeAnalyzer::determine_fetch_method(&return_type);
        let generator = Self::select_generator(
            method.is_multi_insert(),
            method.is_stream_type(),
            method.is_pagination_type(),
            query_type,
        );
        Ok(GenerationPlan { query_type, fetch_method, generator })
    }

    /// The generator for a method (see `generator_spec`).
    pub fn select_generator(multi_insert: bool, stream: bool, paginated: bool, query_type: QueryType) -> (r: GeneratorKind)
        ensures
            r == generator_spec(multi_insert, stream, paginated, query_type),
    {
        if multi_insert {
            GeneratorKind::MultiRowInsert
        } else if stream {
            GeneratorKind::Stream
        } else if paginated {
            GeneratorKind::Paginated
        } else {
            match query_type {
                QueryType::QueryAs => GeneratorKind::QueryAs,
                QueryType::QueryScalar => GeneratorKind::QueryScalar,
                QueryType::Query => GeneratorKind::Query,
            }
        }
    }
}

/// Coordination of code generation.
pub struct CodeGenerator;

impl CodeGenerator {
    /// Whether a parameter, by the text of its type, is left out of tracing:
    /// its text without spaces contains one of `tracing_patterns`.
    pub fn should_skip_param_for_tracing(type_str: &str) -> (r: bool)
        ensures
            r == exists|i: int| 0 <= i < tracing_patterns().len() && contains_seq(without_spaces(type_str@), #[trigger] tracing_patterns()[i]),
    {
        let n = type_str.unicode_len();
        let mut normalized = String::new();
        let mut i: usize = 0;
        proof { reveal(Seq::filter); }
        while i < n
            invariant
                n == type_str@.len(),
                i <= n,
                normalized@ == type_str@.subrange(0, i as int).filter(|c: char| c != ' '),
            decreases n - i,
        {
            let c = type_str.get_char(i);
            proof {
                reveal(Seq::filter);
                assert(type_str@.subrange(0, i + 1).drop_last() =~= type_str@.subrange(0, i as int));
                assert(type_str@.subrange(0, i + 1).last() == c);
            }
            if c != ' ' {
                normalized.push(c);
            }
            i = i + 1;
        }
        assert(type_str@.subrange(0, n as int) =~= type_str@);
        let patterns: [&str; 17] = [
            "implInto<", "implAsRef<", "implAsMut<", "implDeref<", "implDerefMut<", "Connection", "Pool",
            "Executor", "Transaction", "&mut", "Vec<", "HashMap<", "BTreeMap<", "Bytes", "BytesMut", "[u8",
            "Blob",
        ];
        assert(patterns@.map_values(|p: &str| p@) =~= tracing_patterns());
        let mut k: usize = 0;
        while k < 17
            invariant
                k <= 17,
                patterns@.map_values(|p: &str| p@) == tracing_patterns(),
                normalized@ == without_spaces(type_str@),
                forall|j: int| 0 <= j < k ==> !contains_seq(normalized@, #[trigger] tracing_patterns()[j]),
            decreases 17 - k,
        {
            assert(patterns@[k as int]@ == tracing_patterns()[k as int]);
            if contains_str(normalized.as_str(), patterns[k]) {
                return true;
            }
            k = k + 1;
        }
        false
    }
}

/// Documentation of generated code.
pub struct DocumentationGenerator;

impl DocumentationGenerator {
    /// The documentation of generated code: a heading and the code in a
    /// `rust` block.
    pub fn generate_doc_comment(query_code: &str) -> (r: String)
        ensures
            r@ == doc_comment_spec(query_code@),
    {
        let mut out = string_of("Generated by #[dml] macro:\n\n```rust\n");
        out.append(query_code);
        out.append("\n```");
        out
    }
}

} // verus!
