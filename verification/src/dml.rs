//! Repository methods annotated with `#[dml(..)]`: their parameters, what
//! their return type says about the query, the attribute's arguments, the
//! checks run before code is generated, and the conversion of named
//! parameters.
use vstd::prelude::*;
use crate::analysis::{
    TypeAnalyzer, is_pagination_name, first_type_arg_spec, is_tuple_iterable_spec, is_path_named,
};
use crate::database::Database;
use crate::error::MacroError;
use crate::sql_ast::{
    DataVariant, SchemaVariant, SelectParse, SelectParseKind, data_variant, parse_select, schema_variant, select_parse,
};
use sqlparser::ast::Statement;
use crate::named_params::{convert_named_to_positional, conversion_spec};
use crate::syntax::{
    TypeExpr, TypeView, PathSegment, PathArguments, GenericArgument, TypeBound, Generics, GenericParam,
    WherePredicate, is_trait_named, is_item_arg, first_match, lemma_first_match, lemma_first_match_found,
    ends_with_ident, path_ends_with, find_item_arg, find_type_arg, is_type_arg,
};
use crate::text::{str_eq, string_of, ends_with, ends_with_spec, starts_with, contains_str, contains_seq, contains_char, seq_has};

verus! {

/// The kind of SQL statement a method runs.
#[derive(Debug, Clone, Copy, PartialEq, Eq, Structural)]
pub enum SqlStatementType {
    Select,
    Insert,
    Update,
    Delete,
    /// Schema changes: `CREATE`, `DROP`, `ALTER`, `TRUNCATE`, `PRAGMA`, ...
    DDL,
    Unknown,
}

impl SqlStatementType {
    /// Whether the statement is one of `SELECT`, `INSERT`, `UPDATE`, `DELETE`.
    pub open spec fn is_crud_spec(self) -> bool {
        self is Select || self is Insert || self is Update || self is Delete
    }

    /// Whether the statement changes data (`INSERT`, `UPDATE`, `DELETE`).
    pub open spec fn is_data_modification_spec(self) -> bool {
        self is Insert || self is Update || self is Delete
    }
}

/// One parameter of a repository method.
#[derive(Debug)]
pub struct DmlParameter {
    pub name: String,
    pub type_: TypeExpr,
    /// The connection the query runs on (a pool, a transaction, an executor).
    pub is_pool: bool,
    /// A dynamic-parameter value (filters, sorting, pagination).
    pub is_dynamic_param: bool,
    /// An `impl Trait` or a generic type parameter.
    pub is_generic: bool,
}

/// One argument of the method, as declared.
#[derive(Debug)]
pub enum FnInput {
    /// `self`, `&self`, `&mut self`.
    Receiver,
    /// `pattern: Type`: the identifier when the pattern is a plain
    /// identifier, `None` for any other pattern.
    Typed(Option<String>, TypeExpr),
}

/// Whether a parameter takes part in the numbering of placeholders.
pub open spec fn is_positional(p: DmlParameter) -> bool {
    !p.is_pool && !p.is_dynamic_param
}

/// The names that placeholders are numbered by: the parameters that are
/// neither the connection nor a dynamic-parameter value, in order.
pub open spec fn positional_names(params: Seq<DmlParameter>) -> Seq<Seq<char>>
    decreases params.len(),
{
    if params.len() == 0 {
        Seq::empty()
    } else {
        let rest = positional_names(params.drop_last());
        if is_positional(params.last()) { rest.push(params.last().name@) } else { rest }
    }
}

/// The abstract content of an optional type.
pub open spec fn opt_view(t: Option<TypeExpr>) -> Option<TypeView> {
    match t {
        Some(x) => Some(x@),
        None => None,
    }
}

/// The names of the dynamic-parameter types.
pub open spec fn is_dynamic_param_name(n: Seq<char>) -> bool {
    n == "Params"@ || n == "SearchParams"@ || n == "PaginationParams"@ || n == "SortingParams"@
        || n == "FilterParams"@ || n == "CursorParams"@ || n == "SerialParams"@ || n == "SliceParams"@
        || n == "ParamsBuilder"@
}

/// The identifiers of a path.
pub open spec fn path_idents(segs: Seq<PathSegment>) -> Seq<Seq<char>> {
    segs.map_values(|s: PathSegment| s.ident@)
}

/// Whether a bound is `Executor`, `sqlx::Executor` or `sqlx_data::Executor`.
pub open spec fn is_executor_bound(b: TypeBound) -> bool {
    b matches TypeBound::Trait(p) && {
        let ids = path_idents(p@);
        ids == seq!["Executor"@] || ids == seq!["sqlx"@, "Executor"@] || ids == seq!["sqlx_data"@, "Executor"@]
    }
}

/// Whether some bound is an executor bound.
pub open spec fn has_executor_bound(bounds: Seq<TypeBound>) -> bool {
    exists|i: int| 0 <= i < bounds.len() && is_executor_bound(#[trigger] bounds[i])
}

/// Whether a type is a known connection type: `Pool` (with or without
/// arguments), `Transaction<..>`, or a name ending with `Connection`.
pub open spec fn is_concrete_executor_spec(t: TypeExpr) -> bool {
    t matches TypeExpr::Path(segs) && segs@.len() > 0 && {
        let last = segs@.last();
        ||| last.ident@ == "Pool"@
        ||| (last.ident@ == "Transaction"@ && last.arguments is AngleBracketed)
        ||| (last.ident@ != "Pool"@ && last.ident@ != "Transaction"@ && ends_with_spec(last.ident@, "Connection"@))
    }
}

/// Whether a generic parameter is the type parameter `name`.
pub open spec fn is_type_param_named(p: GenericParam, name: Seq<char>) -> bool {
    p matches GenericParam::Type(n, _) && n@ == name
}

/// Whether a `where` predicate bounds a path type ending with `name`.
pub open spec fn is_predicate_on(p: WherePredicate, name: Seq<char>) -> bool {
    p matches WherePredicate::Type(bt, _) && is_path_named(bt, name)
}

/// Whether the generic parameter `name` is bounded by an executor: by its
/// inline bounds when it has some, otherwise by the first `where`
/// predicate on it.
pub open spec fn is_generic_executor_spec(name: Seq<char>, g: Generics) -> bool {
    let k = first_match(g.params@, |p: GenericParam| is_type_param_named(p, name));
    if k < g.params@.len() && g.params@[k as int]->Type_1@.len() > 0 {
        has_executor_bound(g.params@[k as int]->Type_1@)
    } else {
        match g.where_clause {
            None => false,
            Some(preds) => {
                let i = first_match(preds@, |p: WherePredicate| is_predicate_on(p, name));
                i < preds@.len() && has_executor_bound(preds@[i as int]->Type_1@)
            },
        }
    }
}

/// Whether a parameter type is the connection a query runs on.
pub open spec fn is_executor_type_spec(t: TypeExpr, g: Generics) -> bool {
    match t {
        TypeExpr::ImplTrait(bounds) => has_executor_bound(bounds@),
        TypeExpr::Reference(_, e) => is_concrete_executor_spec(*e),
        TypeExpr::Path(segs) => segs@.len() > 0 && (is_generic_executor_spec(segs@.last().ident@, g)
            || is_concrete_executor_spec(t)),
        _ => false,
    }
}

/// Whether a parameter type is a dynamic-parameter value: `impl IntoParams`
/// or one of the dynamic-parameter types.
pub open spec fn is_dynamic_param_spec(t: TypeExpr) -> bool {
    match t {
        TypeExpr::ImplTrait(bounds) => exists|i: int| 0 <= i < bounds@.len() && is_trait_named(#[trigger] bounds@[i], "IntoParams"@),
        TypeExpr::Path(segs) => segs@.len() > 0 && is_dynamic_param_name(segs@.last().ident@),
        _ => false,
    }
}

/// Whether path arguments are empty (none, or `<>`).
pub open spec fn arguments_empty(a: PathArguments) -> bool {
    a is Bare || (a matches PathArguments::AngleBracketed(args) && args@.len() == 0)
}

/// Whether a parameter type is generic: `impl Trait`, or a bare
/// one-segment name that is a type parameter of the method.
pub open spec fn is_generic_spec(t: TypeExpr, g: Generics) -> bool {
    match t {
        TypeExpr::ImplTrait(_) => true,
        TypeExpr::Path(segs) => segs@.len() == 1 && arguments_empty(segs@[0].arguments) && exists|i: int|
            0 <= i < g.params@.len() && is_type_param_named(#[trigger] g.params@[i], segs@[0].ident@),
        _ => false,
    }
}

/// The abstract content of a parameter: name, type, and the three flags.
pub open spec fn param_view(p: DmlParameter) -> (Seq<char>, TypeView, bool, bool, bool) {
    (p.name@, p.type_@, p.is_pool, p.is_dynamic_param, p.is_generic)
}

/// The parameters read from a method's arguments: `self` is skipped; each
/// other argument must be a plain identifier, and at most one may be the
/// connection.
pub open spec fn parameters_spec(inputs: Seq<FnInput>, g: Generics) -> Result<Seq<(Seq<char>, TypeView, bool, bool, bool)>, Seq<char>>
    decreases inputs.len(),
{
    if inputs.len() == 0 {
        Ok(Seq::empty())
    } else {
        match parameters_spec(inputs.drop_last(), g) {
            Err(e) => Err(e),
            Ok(ps) => match inputs.last() {
                FnInput::Receiver => Ok(ps),
                FnInput::Typed(None, _) => Err("Only simple parameter names are supported"@),
                FnInput::Typed(Some(n), t) => {
                    let is_pool = is_executor_type_spec(t, g);
                    if is_pool && exists|j: int| 0 <= j < ps.len() && (#[trigger] ps[j]).2 {
                        Err("Only one pool parameter is allowed per method"@)
                    } else {
                        Ok(ps.push((n@, t@, is_pool, is_dynamic_param_spec(t), is_generic_spec(t, g))))
                    }
                },
            },
        }
    }
}

/// An error for a prefix of the arguments is the error for all of them.
pub proof fn lemma_parameters_err_extends(inputs: Seq<FnInput>, k: int, g: Generics)
    requires
        0 <= k <= inputs.len(),
        parameters_spec(inputs.subrange(0, k), g) is Err,
    ensures
        parameters_spec(inputs, g) == parameters_spec(inputs.subrange(0, k), g),
    decreases inputs.len() - k,
{
    if k < inputs.len() {
        let next = inputs.subrange(0, k + 1);
        assert(next.drop_last() =~= inputs.subrange(0, k));
        lemma_parameters_err_extends(inputs, k + 1, g);
    } else {
        assert(inputs.subrange(0, k) =~= inputs);
    }
}

/// Index of the type parameter `name`, or `params.len()`.
fn find_type_param(params: &Vec<GenericParam>, name: &str) -> (r: usize)
    ensures
        r == first_match(params@, |p: GenericParam| is_type_param_named(p, name@)),
        r <= params@.len(),
        r < params@.len() ==> is_type_param_named(params@[r as int], name@),
{
    let mut k: usize = 0;
    while k < params.len()
        invariant
            k <= params@.len(),
            forall|j: int| 0 <= j < k ==> !is_type_param_named(#[trigger] params@[j], name@),
        decreases params@.len() - k,
    {
        if let GenericParam::Type(n, _) = &params[k] {
            if str_eq(n.as_str(), name) {
                proof { lemma_first_match(params@, |p: GenericParam| is_type_param_named(p, name@), k as int); }
                return k;
            }
        }
        k = k + 1;
    }
    proof { lemma_first_match(params@, |p: GenericParam| is_type_param_named(p, name@), k as int); }
    k
}

/// Index of the first predicate on the path type `name`, or `preds.len()`.
fn find_predicate_on(preds: &Vec<WherePredicate>, name: &str) -> (r: usize)
    ensures
        r == first_match(preds@, |p: WherePredicate| is_predicate_on(p, name@)),
        r <= preds@.len(),
        r < preds@.len() ==> is_predicate_on(preds@[r as int], name@),
{
    let mut i: usize = 0;
    while i < preds.len()
        invariant
            i <= preds@.len(),
            forall|j: int| 0 <= j < i ==> !is_predicate_on(#[trigger] preds@[j], name@),
        decreases preds@.len() - i,
    {
        if let WherePredicate::Type(bt, _) = &preds[i] {
            if let TypeExpr::Path(p) = bt {
                if path_ends_with(p, name) {
                    proof { lemma_first_match(preds@, |p: WherePredicate| is_predicate_on(p, name@), i as int); }
                    return i;
                }
            }
        }
        i = i + 1;
    }
    proof { lemma_first_match(preds@, |p: WherePredicate| is_predicate_on(p, name@), i as int); }
    i
}

/// Parsing of `#[dml(..)]` methods.
pub struct DmlParser;

impl DmlParser {
    /// Whether some bound is `Executor`, `sqlx::Executor` or `sqlx_data::Executor`.
    pub fn implements_sqlx_executor(bounds: &Vec<TypeBound>) -> (r: bool)
        ensures
            r == has_executor_bound(bounds@),
    {
        let mut i: usize = 0;
        while i < bounds.len()
            invariant
                i <= bounds@.len(),
                forall|j: int| 0 <= j < i ==> !is_executor_bound(#[trigger] bounds@[j]),
            decreases bounds@.len() - i,
        {
            if let TypeBound::Trait(p) = &bounds[i] {
                let ids = Ghost(path_idents(p@));
                let hit = if p.len() == 1 {
                    str_eq(p[0].ident.as_str(), "Executor")
                } else if p.len() == 2 {
                    (str_eq(p[0].ident.as_str(), "sqlx") || str_eq(p[0].ident.as_str(), "sqlx_data"))
                        && str_eq(p[1].ident.as_str(), "Executor")
                } else {
                    false
                };
                proof {
                    let ex = seq!["Executor"@];
                    let sx = seq!["sqlx"@, "Executor"@];
                    let dx = seq!["sqlx_data"@, "Executor"@];
                    if ids@ == ex {
                        assert(ids@.len() == 1 && ids@[0] == "Executor"@);
                    }
                    if ids@ == sx {
                        assert(ids@.len() == 2 && ids@[0] == "sqlx"@ && ids@[1] == "Executor"@);
                    }
                    if ids@ == dx {
                        assert(ids@.len() == 2 && ids@[0] == "sqlx_data"@ && ids@[1] == "Executor"@);
                    }
                    if hit {
                        if p@.len() == 1 {
                            assert(ids@ =~= ex);
                        } else if p@[0].ident@ == "sqlx"@ {
                            assert(ids@ =~= sx);
                        } else {
                            assert(ids@ =~= dx);
                        }
                    }
                }
                if hit {
                    return true;
                }
            }
            i = i + 1;
        }
        false
    }

    /// Whether the type is a known connection type (`Pool`, `Transaction<..>`,
    /// `..Connection`).
    pub fn is_concrete_sqlx_executor_type(ty: &TypeExpr) -> (r: bool)
        ensures
            r == is_concrete_executor_spec(*ty),
    {
        let segs = match ty {
            TypeExpr::Path(segs) => segs,
            _ => return false,
        };
        if segs.len() == 0 {
            return false;
        }
        let last = &segs[segs.len() - 1];
        let n = last.ident.as_str();
        if str_eq(n, "Pool") {
            return true;
        }
        if str_eq(n, "Transaction") {
            return match &last.arguments {
                PathArguments::AngleBracketed(_) => true,
                _ => false,
            };
        }
        ends_with(n, "Connection")
    }

    /// Whether the generic parameter `generic_name` is bounded by an executor.
    pub fn is_generic_executor(generic_name: &str, generics: &Generics) -> (r: bool)
        ensures
            r == is_generic_executor_spec(generic_name@, *generics),
    {
        let k = find_type_param(&generics.params, generic_name);
        if k < generics.params.len() {
            if let GenericParam::Type(_, bounds) = &generics.params[k] {
                if bounds.len() > 0 {
                    return Self::implements_sqlx_executor(bounds);
                }
            }
        }
        let preds = match &generics.where_clause {
            Some(preds) => preds,
            None => return false,
        };
        let i = find_predicate_on(preds, generic_name);
        if i < preds.len() {
            if let WherePredicate::Type(_, bounds) = &preds[i] {
                return Self::implements_sqlx_executor(bounds);
            }
        }
        false
    }

    /// Whether a parameter is the connection a query runs on: `impl Executor`,
    /// a reference to a connection type, a generic parameter bounded by
    /// `Executor`, or a connection type.
    pub fn is_sqlx_executor_type(ty: &TypeExpr, generics: &Generics) -> (r: bool)
        ensures
            r == is_executor_type_spec(*ty, *generics),
    {
        match ty {
            TypeExpr::ImplTrait(bounds) => Self::implements_sqlx_executor(bounds),
            TypeExpr::Reference(_, e) => Self::is_concrete_sqlx_executor_type(&**e),
            TypeExpr::Path(segs) => {
                if segs.len() == 0 {
                    return false;
                }
                if Self::is_generic_executor(segs[segs.len() - 1].ident.as_str(), generics) {
                    return true;
                }
                Self::is_concrete_sqlx_executor_type(ty)
            },
            _ => false,
        }
    }

    /// Whether a parameter is generic: `impl Trait`, or a type parameter of
    /// the method.
    pub fn is_generic_type(ty: &TypeExpr, generics: &Generics) -> (r: bool)
        ensures
            r == is_generic_spec(*ty, *generics),
    {
        match ty {
            TypeExpr::ImplTrait(_) => true,
            TypeExpr::Path(segs) => {
                if segs.len() != 1 {
                    return false;
                }
                let empty = match &segs[0].arguments {
                    PathArguments::Bare => true,
                    PathArguments::AngleBracketed(args) => args.len() == 0,
                    PathArguments::Parenthesized => false,
                };
                if !empty {
                    return false;
                }
                let name = segs[0].ident.as_str();
                let mut i: usize = 0;
                while i < generics.params.len()
                    invariant
                        i <= generics.params@.len(),
                        *ty == TypeExpr::Path(*segs),
                        segs@.len() == 1,
                        name@ == segs@[0].ident@,
                        arguments_empty(segs@[0].arguments),
                        forall|j: int| 0 <= j < i ==> !is_type_param_named(#[trigger] generics.params@[j], name@),
                    decreases generics.params@.len() - i,
                {
                    if let GenericParam::Type(n, _) = &generics.params[i] {
                        if str_eq(n.as_str(), name) {
                            assert(is_type_param_named(generics.params@[i as int], ty->Path_0@[0].ident@));
                            return true;
                        }
                    }
                    i = i + 1;
                }
                false
            },
            _ => false,
        }
    }

    /// Whether a parameter is a dynamic-parameter value (`impl IntoParams`,
    /// `Params`, `FilterParams`, `ParamsBuilder`, ...).
    pub fn is_dynamic_param_type(ty: &TypeExpr) -> (r: bool)
        ensures
            r == is_dynamic_param_spec(*ty),
    {
        match ty {
            TypeExpr::ImplTrait(bounds) => {
                let mut i: usize = 0;
                while i < bounds.len()
                    invariant
                        i <= bounds@.len(),
                        *ty == TypeExpr::ImplTrait(*bounds),
                        forall|j: int| 0 <= j < i ==> !is_trait_named(#[trigger] bounds@[j], "IntoParams"@),
                    decreases bounds@.len() - i,
                {
                    if let TypeBound::Trait(p) = &bounds[i] {
                        if path_ends_with(p, "IntoParams") {
                            assert(is_trait_named(ty->ImplTrait_0@[i as int], "IntoParams"@));
                            return true;
                        }
                    }
                    i = i + 1;
                }
                false
            },
            TypeExpr::Path(segs) => {
                if segs.len() == 0 {
                    return false;
                }
                let n = segs[segs.len() - 1].ident.as_str();
                str_eq(n, "Params") || str_eq(n, "SearchParams") || str_eq(n, "PaginationParams")
                    || str_eq(n, "SortingParams") || str_eq(n, "FilterParams") || str_eq(n, "CursorParams")
                    || str_eq(n, "SerialParams") || str_eq(n, "SliceParams") || str_eq(n, "ParamsBuilder")
            },
            _ => false,
        }
    }

    /// The parameters of a method, from its declared arguments.
    pub fn extract_parameters(inputs: &Vec<FnInput>, generics: &Generics) -> (r: Result<Vec<DmlParameter>, MacroError>)
        ensures
            match parameters_spec(inputs@, *generics) {
                Ok(ps) => r matches Ok(v) && v@.map_values(|p: DmlParameter| param_view(p)) == ps,
                Err(m) => r matches Err(e) && e.message@ == m,
            },
    {
        let mut parameters: Vec<DmlParameter> = Vec::new();
        let mut has_pool = false;
        let mut i: usize = 0;
        assert(parameters@.map_values(|p: DmlParameter| param_view(p)) =~= Seq::empty());
        assert(inputs@.subrange(0, 0) =~= Seq::empty());
        while i < inputs.len()
            invariant
                i <= inputs@.len(),
                parameters_spec(inputs@.subrange(0, i as int), *generics) == Ok::<_, Seq<char>>(
                    parameters@.map_values(|p: DmlParameter| param_view(p)),
                ),
                has_pool == exists|j: int| 0 <= j < parameters@.len() && (#[trigger] parameters@[j]).is_pool,
            decreases inputs@.len() - i,
        {
            let ghost sub = inputs@.subrange(0, i + 1);
            let ghost ps = parameters@.map_values(|p: DmlParameter| param_view(p));
            proof {
                assert(sub.drop_last() =~= inputs@.subrange(0, i as int));
                assert(sub.last() == inputs@[i as int]);
                if has_pool {
                    let j = choose|j: int| 0 <= j < parameters@.len() && (#[trigger] parameters@[j]).is_pool;
                    assert(ps[j].2);
                }
                if exists|j: int| 0 <= j < ps.len() && (#[trigger] ps[j]).2 {
                    let j = choose|j: int| 0 <= j < ps.len() && (#[trigger] ps[j]).2;
                    assert(parameters@[j].is_pool);
                }
                assert(has_pool == exists|j: int| 0 <= j < ps.len() && (#[trigger] ps[j]).2);
            }
            match &inputs[i] {
                FnInput::Receiver => {},
                FnInput::Typed(name, ty) => {
                    let name = match name {
                        Some(n) => n,
                        None => {
                            proof { lemma_parameters_err_extends(inputs@, i + 1, *generics); }
                            return Err(MacroError::new(string_of("Only simple parameter names are supported")));
                        },
                    };
                    let is_pool = Self::is_sqlx_executor_type(ty, generics);
                    let is_dynamic_param = Self::is_dynamic_param_type(ty);
                    if is_pool {
                        if has_pool {
                            proof { lemma_parameters_err_extends(inputs@, i + 1, *generics); }
                            return Err(MacroError::new(string_of("Only one pool parameter is allowed per method")));
                        }
                        has_pool = true;
                    }
                    let is_generic = Self::is_generic_type(ty, generics);
                    let ghost old_params = parameters@;
                    let p = DmlParameter {
                        name: name.clone(),
                        type_: ty.copy(),
                        is_pool,
                        is_dynamic_param,
                        is_generic,
                    };
                    parameters.push(p);
                    proof {
                        let nps = parameters@.map_values(|p: DmlParameter| param_view(p));
                        assert(parameters_spec(inputs@.subrange(0, i as int), *generics) == Ok::<_, Seq<char>>(ps));
                        assert(nps =~= ps.push((name@, ty@, is_pool, is_dynamic_param, is_generic)));
                        if exists|j: int| 0 <= j < ps.len() && (#[trigger] ps[j]).2 {
                            let j = choose|j: int| 0 <= j < ps.len() && (#[trigger] ps[j]).2;
                            assert(parameters@[j].is_pool);
                        }
                        if is_pool {
                            assert(parameters@[parameters@.len() - 1].is_pool);
                        } else {
                            assert forall|j: int| 0 <= j < parameters@.len() && (#[trigger] parameters@[j]).is_pool
                                implies j < ps.len() && ps[j].2 by {
                                assert(nps[j] == param_view(parameters@[j]));
                            }
                            if exists|j: int| 0 <= j < old_params.len() && (#[trigger] old_params[j]).is_pool {
                                let j = choose|j: int| 0 <= j < old_params.len() && (#[trigger] old_params[j]).is_pool;
                                assert(parameters@[j].is_pool);
                            }
                        }
                    }
                },
            }
            proof {
                assert(parameters_spec(sub, *generics) == Ok::<_, Seq<char>>(parameters@.map_values(|p: DmlParameter| param_view(p))));
            }
            i = i + 1;
        }
        proof {
            assert(inputs@.subrange(0, inputs@.len() as int) =~= inputs@);
        }
        Ok(parameters)
    }
}

/// Whether a bound is a trait bound whose last segment has angle-bracket
/// arguments holding `Item = ..` or starting with a type.
pub open spec fn has_item_or_first_type(b: TypeBound) -> bool {
    b matches TypeBound::Trait(p) && p@.len() > 0 && p@.last().arguments is AngleBracketed && {
        let args = p@.last().arguments->AngleBracketed_0@;
        first_match(args, |a: GenericArgument| is_item_arg(a)) < args.len() || (args.len() > 0 && args[0] is Type)
    }
}

/// The `Item` type of such a bound, or else its first type argument.
pub open spec fn item_or_first_type(b: TypeBound) -> TypeExpr {
    let args = b->Trait_0@.last().arguments->AngleBracketed_0@;
    let k = first_match(args, |a: GenericArgument| is_item_arg(a));
    if k < args.len() { args[k as int]->AssocType_1 } else { args[0]->Type_0 }
}

/// The first type argument of a type: `T` for `Result<T>`, `Vec<T>`, ...;
/// for `impl Trait<..>` the `Item` type (or first type argument) of the
/// first bound that has one.
pub open spec fn first_type_arg_of(t: TypeExpr) -> Option<TypeExpr> {
    match t {
        TypeExpr::Path(segs) => first_type_arg_spec(segs@),
        TypeExpr::ImplTrait(bounds) => {
            let m = first_match(bounds@, |b: TypeBound| has_item_or_first_type(b));
            if m < bounds@.len() { Some(item_or_first_type(bounds@[m as int])) } else { None }
        },
        _ => None,
    }
}

/// The wrappers that are looked through for the row type.
pub open spec fn is_unwrapped_name(n: Seq<char>) -> bool {
    n == "Result"@ || n == "Vec"@ || n == "Option"@ || is_pagination_name(n)
}

/// Whether a bound is `Stream<..>` with an `Item` or a first type argument.
pub open spec fn is_stream_item_bound(b: TypeBound) -> bool {
    is_trait_named(b, "Stream"@) && has_item_or_first_type(b)
}

/// The row type inside a return type: `Result`, `Vec`, `Option` and the
/// pagination types are looked through (`Result<Serial<User>>` gives
/// `User`, `Vec<Option<u64>>` gives `u64`); `impl Stream<Item = T>` gives `T`.
pub open spec fn inner_type_spec(t: TypeExpr) -> TypeExpr
    decreases t,
{
    match t {
        TypeExpr::Path(segs) => if segs@.len() > 0 && is_unwrapped_name(segs@.last().ident@) {
            match segs@.last().arguments {
                PathArguments::AngleBracketed(args) => if args@.len() > 0 {
                    match args@[0] {
                        GenericArgument::Type(x) => inner_type_spec(x),
                        _ => t,
                    }
                } else {
                    t
                },
                _ => t,
            }
        } else {
            t
        },
        TypeExpr::ImplTrait(bounds) => {
            let m = first_match(bounds@, |b: TypeBound| is_stream_item_bound(b));
            if m < bounds@.len() { item_or_first_type(bounds@[m as int]) } else { t }
        },
        _ => t,
    }
}

/// Whether a type is `impl Stream<..>` (some bound ends with `Stream`).
pub open spec fn is_stream_spec(t: TypeExpr) -> bool {
    t matches TypeExpr::ImplTrait(bounds) && exists|i: int| 0 <= i < bounds@.len() && is_trait_named(#[trigger] bounds@[i], "Stream"@)
}

/// The last identifier of a path type.
pub open spec fn type_name_of(t: Option<TypeExpr>) -> Option<Seq<char>> {
    match t {
        Some(TypeExpr::Path(segs)) => if segs@.len() > 0 { Some(segs@.last().ident@) } else { None },
        _ => None,
    }
}

/// What a method's return type says about its query.
#[derive(Debug)]
pub struct ReturnTypeInfo {
    /// The row type (see `inner_type_spec`).
    pub inner: TypeExpr,
    pub is_tuple: bool,
    pub is_stream: bool,
    /// The first type argument of the return type.
    pub ok_type: Option<TypeExpr>,
    /// The first type argument of the row type.
    pub ok_type_from_inner: Option<TypeExpr>,
    /// The last identifier of `ok_type`.
    pub ok_type_name: Option<String>,
    /// Whether `ok_type_name` is a pagination type.
    pub is_pagination: bool,
}

/// The analysis of a return type `t` (`None` for a method without one).
pub open spec fn return_info_holds(r: ReturnTypeInfo, t: Option<TypeExpr>) -> bool {
    match t {
        None => {
            &&& r.inner@ == TypeView::Tuple(Seq::empty())
            &&& r.is_tuple
            &&& !r.is_stream
            &&& r.ok_type is None
            &&& r.ok_type_from_inner is None
            &&& r.ok_type_name is None
            &&& !r.is_pagination
        },
        Some(ty) => {
            let inner = inner_type_spec(ty);
            let ok = first_type_arg_of(ty);
            let ok_inner = first_type_arg_of(inner);
            let name = type_name_of(ok);
            &&& r.inner@ == inner@
            &&& r.is_stream == is_stream_spec(ty)
            &&& opt_view(r.ok_type) == opt_view(ok)
            &&& opt_view(r.ok_type_from_inner) == opt_view(ok_inner)
            &&& (match name {
                Some(n) => r.ok_type_name matches Some(x) && x@ == n,
                None => r.ok_type_name is None,
            })
            &&& r.is_pagination == (name matches Some(n) && is_pagination_name(n))
            &&& r.is_tuple == (match ok_inner {
                Some(x) => x is Tuple,
                None => inner is Tuple,
            })
        },
    }
}

/// The `Item` type (or first type argument) of a bound with one.
fn item_or_first_type_of(b: &TypeBound) -> (r: Option<&TypeExpr>)
    ensures
        has_item_or_first_type(*b) ==> (r matches Some(x) && *x == item_or_first_type(*b)),
{
    if let TypeBound::Trait(p) = b {
        if p.len() > 0 {
            if let PathArguments::AngleBracketed(args) = &p[p.len() - 1].arguments {
                let k = find_item_arg(args);
                if k < args.len() {
                    if let GenericArgument::AssocType(_, t) = &args[k] {
                        return Some(t);
                    }
                }
                if args.len() > 0 {
                    if let GenericArgument::Type(t) = &args[0] {
                        return Some(t);
                    }
                }
            }
        }
    }
    None
}

/// Whether a bound has an `Item` or a first type argument.
fn bound_has_item_or_first_type(b: &TypeBound) -> (r: bool)
    ensures
        r == has_item_or_first_type(*b),
{
    if let TypeBound::Trait(p) = b {
        if p.len() > 0 {
            if let PathArguments::AngleBracketed(args) = &p[p.len() - 1].arguments {
                let k = find_item_arg(args);
                if k < args.len() {
                    return true;
                }
                if args.len() > 0 {
                    if let GenericArgument::Type(_) = &args[0] {
                        return true;
                    }
                }
            }
        }
    }
    false
}

impl ReturnTypeInfo {
    /// The first type argument of a type (see `first_type_arg_of`).
    pub fn extract_first_type_arg(ty: &TypeExpr) -> (r: Option<&TypeExpr>)
        ensures
            match first_type_arg_of(*ty) {
                Some(t) => r matches Some(x) && *x == t,
                None => r is None,
            },
    {
        match ty {
            TypeExpr::Path(segs) => {
                if segs.len() == 0 {
                    return None;
                }
                if let PathArguments::AngleBracketed(args) = &segs[segs.len() - 1].arguments {
                    if args.len() > 0 {
                        if let GenericArgument::Type(t) = &args[0] {
                            return Some(t);
                        }
                    }
                }
                None
            },
            TypeExpr::ImplTrait(bounds) => {
                let mut i: usize = 0;
                while i < bounds.len()
                    invariant
                        i <= bounds@.len(),
                        *ty == TypeExpr::ImplTrait(*bounds),
                        forall|j: int| 0 <= j < i ==> !has_item_or_first_type(#[trigger] bounds@[j]),
                    decreases bounds@.len() - i,
                {
                    if bound_has_item_or_first_type(&bounds[i]) {
                        proof {
                            lemma_first_match(bounds@, |b: TypeBound| has_item_or_first_type(b), i as int);
                        }
                        return item_or_first_type_of(&bounds[i]);
                    }
                    i = i + 1;
                }
                proof {
                    lemma_first_match(bounds@, |b: TypeBound| has_item_or_first_type(b), i as int);
                }
                None
            },
            _ => None,
        }
    }

    /// The row type inside a return type (see `inner_type_spec`).
    pub fn extract_inner_type(ty: &TypeExpr) -> (r: &TypeExpr)
        ensures
            *r == inner_type_spec(*ty),
        decreases ty,
    {
        match ty {
            TypeExpr::Path(segs) => {
                if segs.len() == 0 {
                    return ty;
                }
                let last = &segs[segs.len() - 1];
                let n = last.ident.as_str();
                let unwrap = str_eq(n, "Result") || str_eq(n, "Vec") || str_eq(n, "Option")
                    || str_eq(n, "Serial") || str_eq(n, "Slice") || str_eq(n, "Cursor");
                if !unwrap {
                    return ty;
                }
                if let PathArguments::AngleBracketed(args) = &last.arguments {
                    if args.len() > 0 {
                        if let GenericArgument::Type(inner) = &args[0] {
                            proof {
                                assert(decreases_to!(*ty => ty->Path_0));
                                assert(decreases_to!(ty->Path_0 => ty->Path_0@));
                                assert(decreases_to!(ty->Path_0@ => ty->Path_0@[segs@.len() - 1]));
                                assert(decreases_to!(ty->Path_0@[segs@.len() - 1] => ty->Path_0@[segs@.len() - 1].arguments));
                                assert(decreases_to!(last.arguments => last.arguments->AngleBracketed_0));
                                assert(decreases_to!(*args => args@));
                                assert(decreases_to!(args@ => args@[0]));
                                assert(decreases_to!(args@[0] => args@[0]->Type_0));
                            }
                            return Self::extract_inner_type(inner);
                        }
                    }
                }
                ty
            },
            TypeExpr::ImplTrait(bounds) => {
                let mut i: usize = 0;
                while i < bounds.len()
                    invariant
                        i <= bounds@.len(),
                        *ty == TypeExpr::ImplTrait(*bounds),
                        forall|j: int| 0 <= j < i ==> !is_stream_item_bound(#[trigger] bounds@[j]),
                    decreases bounds@.len() - i,
                {
                    let stream = match &bounds[i] {
                        TypeBound::Trait(p) => path_ends_with(p, "Stream"),
                        TypeBound::Other => false,
                    };
                    if stream && bound_has_item_or_first_type(&bounds[i]) {
                        proof {
                            lemma_first_match(bounds@, |b: TypeBound| is_stream_item_bound(b), i as int);
                        }
                        match item_or_first_type_of(&bounds[i]) {
                            Some(t) => return t,
                            None => return ty,
                        }
                    }
                    i = i + 1;
                }
                proof {
                    lemma_first_match(bounds@, |b: TypeBound| is_stream_item_bound(b), i as int);
                }
                ty
            },
            _ => ty,
        }
    }

    /// Whether the type is `impl Stream<..>`.
    pub fn check_is_stream_type(ty: &TypeExpr) -> (r: bool)
        ensures
            r == is_stream_spec(*ty),
    {
        match ty {
            TypeExpr::ImplTrait(bounds) => {
                let mut i: usize = 0;
                while i < bounds.len()
                    invariant
                        i <= bounds@.len(),
                        *ty == TypeExpr::ImplTrait(*bounds),
                        forall|j: int| 0 <= j < i ==> !is_trait_named(#[trigger] bounds@[j], "Stream"@),
                    decreases bounds@.len() - i,
                {
                    if let TypeBound::Trait(p) = &bounds[i] {
                        if path_ends_with(p, "Stream") {
                            assert(is_trait_named(ty->ImplTrait_0@[i as int], "Stream"@));
                            return true;
                        }
                    }
                    i = i + 1;
                }
                false
            },
            _ => false,
        }
    }

    /// The analysis of a method without a return type: `()`.
    pub fn default_unit() -> (r: Self)
        ensures
            return_info_holds(r, None),
    {
        let inner = TypeExpr::Tuple(Vec::new());
        assert(inner@->Tuple_0 =~= Seq::<TypeView>::empty());
        ReturnTypeInfo {
            inner,
            is_tuple: true,
            is_stream: false,
            ok_type: None,
            ok_type_from_inner: None,
            ok_type_name: None,
            is_pagination: false,
        }
    }

    /// The analysis of a return type.
    pub fn analyze(return_type: Option<&TypeExpr>) -> (r: Self)
        ensures
            return_info_holds(r, match return_type { Some(t) => Some(*t), None => None }),
    {
        let ty = match return_type {
            Some(t) => t,
            None => return Self::default_unit(),
        };
        let inner = Self::extract_inner_type(ty);
        let is_stream = Self::check_is_stream_type(ty);
        let ok_type = Self::extract_first_type_arg(ty);
        let ok_type_from_inner = Self::extract_first_type_arg(inner);
        let ok_type_name: Option<String> = match ok_type {
            Some(TypeExpr::Path(segs)) => if segs.len() > 0 {
                Some(segs[segs.len() - 1].ident.clone())
            } else {
                None
            },
            _ => None,
        };
        let is_pagination = match &ok_type_name {
            Some(n) => str_eq(n.as_str(), "Serial") || str_eq(n.as_str(), "Slice") || str_eq(n.as_str(), "Cursor"),
            None => false,
        };
        let is_tuple = match ok_type_from_inner {
            Some(t) => TypeAnalyzer::is_tuple_type(t),
            None => TypeAnalyzer::is_tuple_type(inner),
        };
        ReturnTypeInfo {
            inner: inner.copy(),
            is_tuple,
            is_stream,
            ok_type: match ok_type {
                Some(t) => Some(t.copy()),
                None => None,
            },
            ok_type_from_inner: match ok_type_from_inner {
                Some(t) => Some(t.copy()),
                None => None,
            },
            ok_type_name,
            is_pagination,
        }
    }
}

/// Whether a type is `()`.
pub open spec fn is_unit_spec(t: TypeExpr) -> bool {
    t matches TypeExpr::Tuple(elems) && elems@.len() == 0
}

/// Whether a return type is `()` or `Result<()>`/`Result<(), E>`.
pub open spec fn contains_unit_spec(t: TypeExpr) -> bool {
    is_unit_spec(t) || (is_path_named(t, "Result"@) && (first_type_arg_spec(t->Path_0@) matches Some(x) && is_unit_spec(x)))
}

/// The error for `()` with a CRUD statement.
pub open spec fn unit_in_crud_message() -> Seq<char> {
    "Unit type () not allowed with SELECT/INSERT/UPDATE/DELETE operations. These should return data or QueryResult"@
}

/// The error for an `async` method returning a stream.
pub open spec fn async_stream_message() -> Seq<char> {
    "Stream return types cannot be declared as async functions. Remove 'async' keyword - streams are returned directly without await"@
}

/// The error for schema changes in `#[dml]`.
pub open spec fn ddl_message() -> Seq<char> {
    "DDL commands (CREATE, DROP, ALTER, PRAGMA, etc.) are not allowed with #[dml]. Use #[dml(\"SQL\", unchecked)] if this is intentional, or consider using a different approach for DDL operations."@
}

/// Where a method's SQL comes from.
#[derive(Debug)]
pub enum SqlSource {
    /// The SQL text given in the attribute.
    Inline(String),
    /// A path to a `.sql` file, relative to the crate.
    File(String),
}

/// The abstract content of a SQL source.
pub enum SqlSourceView {
    Inline(Seq<char>),
    File(Seq<char>),
}

impl View for SqlSource {
    type V = SqlSourceView;

    open spec fn view(&self) -> SqlSourceView {
        match self {
            SqlSource::Inline(s) => SqlSourceView::Inline(s@),
            SqlSource::File(s) => SqlSourceView::File(s@),
        }
    }
}

/// Why a SQL file path is refused, if it is: it climbs out (`..`), is
/// absolute (`/`, `\\`, a drive letter), is not a `.sql` file, or holds a
/// NUL character; in that order.
pub open spec fn file_path_error(path: Seq<char>) -> Option<Seq<char>> {
    if contains_seq(path, ".."@) {
        Some("File path cannot contain '..' (path traversal prevented for security)"@)
    } else if path.len() > 0 && (path[0] == '/' || path[0] == '\\') {
        Some("File path must be relative (absolute paths not allowed for security)"@)
    } else if path.len() >= 2 && path[1] == ':' {
        Some("File path cannot contain drive letters (absolute paths not allowed for security)"@)
    } else if !ends_with_spec(path, ".sql"@) {
        Some("Only .sql files are allowed for security reasons"@)
    } else if seq_has(path, '\0') {
        Some("File path cannot contain null bytes"@)
    } else {
        None
    }
}

impl SqlSource {
    /// Checks a SQL file path (see `file_path_error`).
    pub fn validate_file_path(file_path: &str) -> (r: Result<(), MacroError>)
        ensures
            match file_path_error(file_path@) {
                Some(m) => r matches Err(e) && e.message@ == m,
                None => r is Ok,
            },
    {
        if contains_str(file_path, "..") {
            return Err(MacroError::new(string_of("File path cannot contain '..' (path traversal prevented for security)")));
        }
        let n = file_path.unicode_len();
        if n > 0 && (file_path.get_char(0) == '/' || file_path.get_char(0) == '\\') {
            return Err(MacroError::new(string_of("File path must be relative (absolute paths not allowed for security)")));
        }
        if n >= 2 && file_path.get_char(1) == ':' {
            return Err(MacroError::new(string_of("File path cannot contain drive letters (absolute paths not allowed for security)")));
        }
        if !ends_with(file_path, ".sql") {
            return Err(MacroError::new(string_of("Only .sql files are allowed for security reasons")));
        }
        if contains_char(file_path, '\0') {
            return Err(MacroError::new(string_of("File path cannot contain null bytes")));
        }
        Ok(())
    }
}

/// The target of `key = value` in the attribute.
#[derive(Debug)]
pub enum ArgTarget {
    /// A path that is a single identifier.
    Ident(String),
    /// Any other path.
    OtherPath,
    /// Not a path.
    NotPath,
}

/// The value of `key = value` in the attribute.
#[derive(Debug)]
pub enum ArgValue {
    /// A string literal's value.
    Str(String),
    /// Another literal.
    OtherLit,
    /// Not a literal.
    NotLit,
}

/// One argument of `#[dml(..)]`.
#[derive(Debug)]
pub enum MacroArg {
    /// A string literal's value.
    Str(String),
    /// Another literal.
    OtherLit,
    /// `key = value`.
    Assign(ArgTarget, ArgValue),
    /// A path; the identifier when it is a single one.
    Path(Option<String>),
    /// Any other expression.
    Other,
}

/// What the arguments read so far give: the SQL source, and the
/// `unchecked`, `json` and `multi_insert` flags.
pub type MacroArgsView = (Option<SqlSourceView>, bool, bool, bool);

/// The error for an argument of an unknown form.
pub open spec fn bad_argument_message() -> Seq<char> {
    "Arguments must be either a SQL string literal, key=value pairs, 'unchecked' flag, 'json' flag, or 'multi_insert' flag"@
}

/// Reading one more argument.
pub open spec fn macro_arg_step(st: MacroArgsView, arg: MacroArg) -> Result<MacroArgsView, Seq<char>> {
    match arg {
        MacroArg::Str(v) => if st.0 is None {
            Ok((Some(SqlSourceView::Inline(v@)), st.1, st.2, st.3))
        } else {
            Err(bad_argument_message())
        },
        MacroArg::OtherLit => if st.0 is None {
            Err("SQL argument must be a string literal"@)
        } else {
            Err(bad_argument_message())
        },
        MacroArg::Assign(target, value) => match target {
            ArgTarget::NotPath => Err("Invalid parameter name"@),
            ArgTarget::Ident(k) => if k@ != "file"@ {
                Err("Unknown parameter. Supported: file"@)
            } else if st.0 is Some {
                Err("Cannot specify both inline SQL and file parameter"@)
            } else {
                match value {
                    ArgValue::Str(v) => Ok((Some(SqlSourceView::File(v@)), st.1, st.2, st.3)),
                    _ => Err("file parameter must be a string literal"@),
                }
            },
            ArgTarget::OtherPath => Err("Unknown parameter. Supported: file"@),
        },
        MacroArg::Path(Some(n)) => if n@ == "unchecked"@ {
            Ok((st.0, true, st.2, st.3))
        } else if n@ == "json"@ {
            Ok((st.0, st.1, true, st.3))
        } else if n@ == "multi_insert"@ {
            Ok((st.0, st.1, st.2, true))
        } else {
            Err(bad_argument_message())
        },
        _ => Err(bad_argument_message()),
    }
}

/// Reading the arguments in order, stopping at the first error.
pub open spec fn macro_args_spec(args: Seq<MacroArg>) -> Result<MacroArgsView, Seq<char>>
    decreases args.len(),
{
    if args.len() == 0 {
        Ok((None, false, false, false))
    } else {
        match macro_args_spec(args.drop_last()) {
            Err(e) => Err(e),
            Ok(st) => macro_arg_step(st, args.last()),
        }
    }
}

/// An error for a prefix of the arguments is the error for all of them.
pub proof fn lemma_macro_args_err_extends(args: Seq<MacroArg>, k: int)
    requires
        0 <= k <= args.len(),
        macro_args_spec(args.subrange(0, k)) is Err,
    ensures
        macro_args_spec(args) == macro_args_spec(args.subrange(0, k)),
    decreases args.len() - k,
{
    if k < args.len() {
        assert(args.subrange(0, k + 1).drop_last() =~= args.subrange(0, k));
        lemma_macro_args_err_extends(args, k + 1);
    } else {
        assert(args.subrange(0, k) =~= args);
    }
}

/// What `#[dml(..)]` with the arguments `args` gives: an error when the
/// attribute is empty, when an argument is refused, or when no SQL source is
/// given; otherwise the source and the three flags.
pub open spec fn parse_macro_args_spec(tokens_empty: bool, args: Seq<MacroArg>) -> Result<MacroArgsView, Seq<char>> {
    if tokens_empty {
        Err("Attribute requires either a SQL string or file parameter"@)
    } else if args.len() == 0 {
        Err("Attribute requires at least one argument"@)
    } else {
        match macro_args_spec(args) {
            Err(e) => Err(e),
            Ok(st) => if st.0 is None {
                Err("DML attribute requires either a SQL string or file parameter"@)
            } else {
                Ok(st)
            },
        }
    }
}

/// A method with `#[dml(..)]`, as read from its declaration.
#[derive(Debug)]
pub struct DmlMethod {
    pub name: String,
    /// The declared return type (`None` for none).
    pub output: Option<TypeExpr>,
    pub generics: Generics,
    pub is_async: bool,
    /// The SQL after aliases, scopes and named parameters were resolved.
    pub sql_content: String,
    pub parameters: Vec<DmlParameter>,
    pub kind: SqlStatementType,
    pub is_json_query: bool,
    pub is_multi_insert: bool,
    pub is_unchecked: bool,
    pub has_explicit_instrument: bool,
    pub trait_instrument: bool,
}

impl DmlMethod {
    /// The method's name.
    pub fn name(&self) -> (r: String)
        ensures
            r@ == self.name@,
    {
        self.name.clone()
    }

    /// The declared return type.
    pub fn return_type(&self) -> (r: Option<&TypeExpr>)
        ensures
            match self.output {
                Some(t) => r matches Some(x) && *x == t,
                None => r is None,
            },
    {
        match &self.output {
            Some(t) => Some(t),
            None => None,
        }
    }

    /// What the return type says about the query.
    pub fn return_info(&self) -> (r: ReturnTypeInfo)
        ensures
            return_info_holds(r, self.output),
    {
        ReturnTypeInfo::analyze(self.return_type())
    }

    /// The method's generics.
    pub fn generics(&self) -> (r: &Generics)
        ensures
            *r == self.generics,
    {
        &self.generics
    }

    /// Whether the method is `async`.
    pub fn is_async(&self) -> (r: bool)
        ensures
            r == self.is_async,
    {
        self.is_async
    }

    /// The row type: `Result<Serial<User>>` gives `User`.
    pub fn get_return_inner_type(&self) -> (r: TypeExpr)
        ensures
            match self.output {
                Some(t) => r@ == inner_type_spec(t)@,
                None => r@ == TypeView::Tuple(Seq::empty()),
            },
    {
        self.return_info().inner
    }

    /// The ok type: the first type argument of the return type, or of the
    /// row type for streams.
    pub fn get_ok_type(&self) -> (r: Option<TypeExpr>)
        ensures
            match self.output {
                Some(t) => opt_view(r) == (if is_stream_spec(t) {
                    opt_view(first_type_arg_of(inner_type_spec(t)))
                } else {
                    opt_view(first_type_arg_of(t))
                }),
                None => r is None,
            },
    {
        let info = self.return_info();
        if info.is_stream {
            info.ok_type_from_inner
        } else {
            info.ok_type
        }
    }

    /// Whether the statement changes data.
    pub fn is_data_modification(&self) -> (r: bool)
        ensures
            r == self.kind.is_data_modification_spec(),
    {
        match self.kind {
            SqlStatementType::Insert | SqlStatementType::Update | SqlStatementType::Delete => true,
            _ => false,
        }
    }

    /// Whether the statement is `SELECT`, `INSERT`, `UPDATE` or `DELETE`.
    pub fn is_crud_operation(&self) -> (r: bool)
        ensures
            r == self.kind.is_crud_spec(),
    {
        DmlParser::is_crud_operation(&self.kind)
    }

    /// Whether some parameter is a dynamic-parameter value.
    pub fn has_dynamic_params(&self) -> (r: bool)
        ensures
            r == exists|i: int| 0 <= i < self.parameters@.len() && (#[trigger] self.parameters@[i]).is_dynamic_param,
    {
        let mut i: usize = 0;
        while i < self.parameters.len()
            invariant
                i <= self.parameters@.len(),
                forall|j: int| 0 <= j < i ==> !(#[trigger] self.parameters@[j]).is_dynamic_param,
            decreases self.parameters@.len() - i,
        {
            if self.parameters[i].is_dynamic_param {
                return true;
            }
            i = i + 1;
        }
        false
    }

    /// The last identifier of the ok type: `Result<Serial<User>, Error>`
    /// gives `Serial`, `Vec<User>` gives `Vec`.
    pub fn return_ok_type_name(&self) -> (r: Option<String>)
        ensures
            match self.output {
                Some(t) => match type_name_of(first_type_arg_of(t)) {
                    Some(n) => r matches Some(x) && x@ == n,
                    None => r is None,
                },
                None => r is None,
            },
    {
        self.return_info().ok_type_name
    }

    /// Whether the ok type is `Serial`, `Slice` or `Cursor`.
    pub fn is_pagination_type(&self) -> (r: bool)
        ensures
            r == (self.output matches Some(t) && (type_name_of(first_type_arg_of(t)) matches Some(n) && is_pagination_name(n))),
    {
        self.return_info().is_pagination
    }

    /// Whether the return type is `impl Stream<..>`.
    pub fn is_stream_type(&self) -> (r: bool)
        ensures
            r == (self.output matches Some(t) && is_stream_spec(t)),
    {
        self.return_info().is_stream
    }

    /// Whether the method inserts many rows at once.
    pub fn is_multi_insert(&self) -> (r: bool)
        ensures
            r == self.is_multi_insert,
    {
        self.is_multi_insert
    }

    /// Whether the rows are tuples.
    pub fn is_tuple_type(&self) -> (r: bool)
        ensures
            r == (match self.output {
                Some(t) => match first_type_arg_of(inner_type_spec(t)) {
                    Some(x) => x is Tuple,
                    None => inner_type_spec(t) is Tuple,
                },
                None => true,
            }),
    {
        self.return_info().is_tuple
    }

    /// The element types of the tuple rows.
    pub fn parse_tuple_types(&self) -> (r: Result<Vec<TypeExpr>, MacroError>)
        ensures
            ({
                let info_type = match self.output {
                    Some(t) => match first_type_arg_of(inner_type_spec(t)) {
                        Some(x) => x@,
                        None => inner_type_spec(t)@,
                    },
                    None => TypeView::Tuple(Seq::empty()),
                };
                match info_type {
                    TypeView::Tuple(elems) => r matches Ok(v) && v@.map_values(|t: TypeExpr| t@) == elems,
                    _ => r matches Err(e) && e.message@ == "Expected tuple type"@,
                }
            }),
    {
        let info = self.return_info();
        let tuple_type = match &info.ok_type_from_inner {
            Some(t) => t,
            None => &info.inner,
        };
        match tuple_type {
            TypeExpr::Tuple(elems) => {
                let mut out: Vec<TypeExpr> = Vec::new();
                let mut i: usize = 0;
                while i < elems.len()
                    invariant
                        i <= elems@.len(),
                        out@.len() == i,
                        forall|j: int| 0 <= j < i ==> (#[trigger] out@[j])@ == elems@[j]@,
                    decreases elems@.len() - i,
                {
                    out.push(elems[i].copy());
                    i = i + 1;
                }
                proof {
                    assert(out@.map_values(|t: TypeExpr| t@) =~= tuple_type@->Tuple_0);
                }
                Ok(out)
            },
            _ => Err(MacroError::new(string_of("Expected tuple type"))),
        }
    }
}

/// The kind of a statement from its variants: a query, an insert, an
/// update, a delete; a schema change; unknown otherwise.
pub open spec fn sql_type_of_spec(data: DataVariant, schema: SchemaVariant) -> SqlStatementType {
    match data {
        DataVariant::Query => SqlStatementType::Select,
        DataVariant::Insert => SqlStatementType::Insert,
        DataVariant::Update => SqlStatementType::Update,
        DataVariant::Delete => SqlStatementType::Delete,
        DataVariant::Other => if schema is Other {
            SqlStatementType::Unknown
        } else {
            SqlStatementType::DDL
        },
    }
}

impl DmlParser {
    /// The kind of a statement from its variants (see `sql_type_of_spec`).
    pub fn sql_type_of(data: DataVariant, schema: SchemaVariant) -> (r: SqlStatementType)
        ensures
            r == sql_type_of_spec(data, schema),
    {
        match data {
            DataVariant::Query => SqlStatementType::Select,
            DataVariant::Insert => SqlStatementType::Insert,
            DataVariant::Update => SqlStatementType::Update,
            DataVariant::Delete => SqlStatementType::Delete,
            DataVariant::Other => match schema {
                SchemaVariant::Other => SqlStatementType::Unknown,
                _ => SqlStatementType::DDL,
            },
        }
    }

    /// The kind of a method's parsed statement; unknown without one.
    pub fn detect_sql_type(statement: Option<&Statement>) -> (r: SqlStatementType)
        ensures
            statement is None ==> r == SqlStatementType::Unknown,
    {
        match statement {
            Some(s) => Self::sql_type_of(data_variant(s), schema_variant(s)),
            None => SqlStatementType::Unknown,
        }
    }

    /// The kind of the first statement of a method's SQL, parsed in the
    /// dialect of `db`: the parser's error when it does not parse, unknown
    /// when it holds no statement, `Select` for a query; otherwise as
    /// `detect_sql_type` classifies the statement.
    pub fn detect_sql_type_of_sql(sql: &str, db: Database) -> (r: Result<SqlStatementType, String>)
        ensures
            match select_parse(sql@, db) {
                SelectParseKind::Failed(m) => r matches Err(e) && e@ == m,
                SelectParseKind::Nothing => r == Ok::<SqlStatementType, String>(SqlStatementType::Unknown),
                SelectParseKind::NotQuery => r is Ok,
                _ => r == Ok::<SqlStatementType, String>(SqlStatementType::Select),
            },
    {
        match parse_select(sql, db) {
            SelectParse::Failed(m) => Err(m),
            SelectParse::Nothing => Ok(Self::detect_sql_type(None)),
            SelectParse::NotQuery(s) => Ok(Self::detect_sql_type(Some(&s))),
            SelectParse::NotSelect(_) => Ok(Self::sql_type_of(DataVariant::Query, SchemaVariant::Other)),
            SelectParse::Select(_) => Ok(Self::sql_type_of(DataVariant::Query, SchemaVariant::Other)),
        }
    }
}

impl DmlParser {
    /// Whether the type is `()`.
    pub fn is_unit_type(ty: &TypeExpr) -> (r: bool)
        ensures
            r == is_unit_spec(*ty),
    {
        match ty {
            TypeExpr::Tuple(elems) => elems.len() == 0,
            _ => false,
        }
    }

    /// Whether the return type is `()` or `Result<()>`.
    pub fn return_type_contains_unit(return_type: &TypeExpr) -> (r: bool)
        ensures
            r == contains_unit_spec(*return_type),
    {
        if Self::is_unit_type(return_type) {
            return true;
        }
        let segs = match return_type {
            TypeExpr::Path(segs) => segs,
            _ => return false,
        };
        if !path_ends_with(segs, "Result") {
            return false;
        }
        match ReturnTypeInfo::extract_first_type_arg(return_type) {
            Some(inner) => Self::is_unit_type(inner),
            None => false,
        }
    }

    /// Whether the statement is `SELECT`, `INSERT`, `UPDATE` or `DELETE`.
    pub fn is_crud_operation(sql_type: &SqlStatementType) -> (r: bool)
        ensures
            r == sql_type.is_crud_spec(),
    {
        match sql_type {
            SqlStatementType::Select | SqlStatementType::Insert | SqlStatementType::Update | SqlStatementType::Delete => true,
            _ => false,
        }
    }

    /// Refuses `()` (or `Result<()>`) with a CRUD statement unless the
    /// method is `unchecked`.
    pub fn validate_unit_type_not_allowed_in_crud(
        return_type: &TypeExpr,
        sql_type: &SqlStatementType,
        has_unchecked: bool,
    ) -> (r: Result<(), MacroError>)
        ensures
            if contains_unit_spec(*return_type) && sql_type.is_crud_spec() && !has_unchecked {
                r matches Err(e) && e.message@ == unit_in_crud_message()
            } else {
                r is Ok
            },
    {
        if !Self::return_type_contains_unit(return_type) {
            return Ok(());
        }
        if Self::is_crud_operation(sql_type) && !has_unchecked {
            return Err(MacroError::new(string_of(
                "Unit type () not allowed with SELECT/INSERT/UPDATE/DELETE operations. These should return data or QueryResult",
            )));
        }
        Ok(())
    }

    /// Refuses an `async` method that returns a stream.
    pub fn validate_stream_not_async(return_type: &TypeExpr, is_async: bool) -> (r: Result<(), MacroError>)
        ensures
            if is_stream_spec(*return_type) && is_async {
                r matches Err(e) && e.message@ == async_stream_message()
            } else {
                r is Ok
            },
    {
        if ReturnTypeInfo::check_is_stream_type(return_type) && is_async {
            return Err(MacroError::new(string_of(
                "Stream return types cannot be declared as async functions. Remove 'async' keyword - streams are returned directly without await",
            )));
        }
        Ok(())
    }

    /// Refuses schema changes.
    pub fn validate_no_ddl_in_dml(kind: &SqlStatementType) -> (r: Result<(), MacroError>)
        ensures
            if *kind is DDL { r matches Err(e) && e.message@ == ddl_message() } else { r is Ok },
    {
        match kind {
            SqlStatementType::DDL => Err(MacroError::new(string_of(
                "DDL commands (CREATE, DROP, ALTER, PRAGMA, etc.) are not allowed with #[dml]. Use #[dml(\"SQL\", unchecked)] if this is intentional, or consider using a different approach for DDL operations.",
            ))),
            _ => Ok(()),
        }
    }

    /// The checks that need no SQL analysis.
    pub fn run_pre_parsing_validations(return_type: &TypeExpr, is_async: bool) -> (r: Result<(), MacroError>)
        ensures
            if is_stream_spec(*return_type) && is_async {
                r matches Err(e) && e.message@ == async_stream_message()
            } else {
                r is Ok
            },
    {
        Self::validate_stream_not_async(return_type, is_async)
    }

    /// The checks on the statement: no schema changes, and no `()` with a
    /// CRUD statement unless `unchecked`.
    pub fn run_post_parsing_validations(
        return_type: &TypeExpr,
        kind: &SqlStatementType,
        has_unchecked: bool,
    ) -> (r: Result<(), MacroError>)
        ensures
            if *kind is DDL {
                r matches Err(e) && e.message@ == ddl_message()
            } else if contains_unit_spec(*return_type) && kind.is_crud_spec() && !has_unchecked {
                r matches Err(e) && e.message@ == unit_in_crud_message()
            } else {
                r is Ok
            },
    {
        match Self::validate_no_ddl_in_dml(kind) {
            Ok(()) => {},
            Err(e) => return Err(e),
        }
        Self::validate_unit_type_not_allowed_in_crud(return_type, kind, has_unchecked)
    }

    /// Whether an `INSERT` takes an iterable of tuples (and so inserts many
    /// rows at once).
    pub fn is_auto_multi_insert(kind: &SqlStatementType, parameters: &Vec<DmlParameter>, generics: &Generics) -> (r: bool)
        ensures
            r == (*kind is Insert && exists|i: int| 0 <= i < parameters@.len() && is_positional(#[trigger] parameters@[i])
                && is_tuple_iterable_spec(parameters@[i].type_, *generics)),
    {
        match kind {
            SqlStatementType::Insert => {},
            _ => return false,
        }
        let mut i: usize = 0;
        while i < parameters.len()
            invariant
                i <= parameters@.len(),
                *kind is Insert,
                forall|j: int| 0 <= j < i ==> !(is_positional(#[trigger] parameters@[j]) && is_tuple_iterable_spec(parameters@[j].type_, *generics)),
            decreases parameters@.len() - i,
        {
            let p = &parameters[i];
            if !p.is_pool && !p.is_dynamic_param && TypeAnalyzer::is_tuple_iterable_type(&p.type_, generics) {
                assert(is_positional(parameters@[i as int]) && is_tuple_iterable_spec(parameters@[i as int].type_, *generics));
                return true;
            }
            i = i + 1;
        }
        false
    }

    /// The names placeholders are numbered by (see `positional_names`).
    pub fn positional_parameter_names(parameters: &Vec<DmlParameter>) -> (r: Vec<String>)
        ensures
            r.deep_view() == positional_names(parameters@),
    {
        let mut out: Vec<String> = Vec::new();
        let mut i: usize = 0;
        while i < parameters.len()
            invariant
                i <= parameters@.len(),
                out.deep_view() == positional_names(parameters@.subrange(0, i as int)),
            decreases parameters@.len() - i,
        {
            proof {
                assert(parameters@.subrange(0, i + 1).drop_last() =~= parameters@.subrange(0, i as int));
            }
            if !parameters[i].is_pool && !parameters[i].is_dynamic_param {
                let ghost before = out.deep_view();
                out.push(parameters[i].name.clone());
                assert(out.deep_view() =~= before.push(parameters@[i as int].name@));
            }
            i = i + 1;
        }
        assert(parameters@.subrange(0, parameters@.len() as int) =~= parameters@);
        out
    }

    /// Converts named parameters (`@name`) to the placeholders of `db`,
    /// numbering the parameters that are neither the connection nor a
    /// dynamic-parameter value (see `conversion_spec`).
    pub fn convert_named_to_positional_in_sql(
        sql: &str,
        parameters: &Vec<DmlParameter>,
        db: Database,
    ) -> (r: Result<String, MacroError>)
        ensures
            match conversion_spec(sql@, positional_names(parameters@), db) {
                Ok(s) => r matches Ok(o) && o@ == s,
                Err(m) => r matches Err(e) && e.message@ == m,
            },
    {
        let names = Self::positional_parameter_names(parameters);
        match convert_named_to_positional(sql, &names, db) {
            Ok(s) => Ok(s),
            Err(m) => Err(MacroError::new(m)),
        }
    }

    /// Reads the arguments of `#[dml(..)]` (see `parse_macro_args_spec`):
    /// the SQL source and the `unchecked`, `json` and `multi_insert` flags.
    pub fn parse_macro_args(tokens_empty: bool, args: &Vec<MacroArg>) -> (r: Result<(SqlSource, bool, bool, bool), MacroError>)
        ensures
            match parse_macro_args_spec(tokens_empty, args@) {
                Ok(st) => r matches Ok(v) && Some(v.0@) == st.0 && v.1 == st.1 && v.2 == st.2 && v.3 == st.3,
                Err(m) => r matches Err(e) && e.message@ == m,
            },
    {
        if tokens_empty {
            return Err(MacroError::new(string_of("Attribute requires either a SQL string or file parameter")));
        }
        if args.len() == 0 {
            return Err(MacroError::new(string_of("Attribute requires at least one argument")));
        }
        let mut sql_source: Option<SqlSource> = None;
        let mut has_unchecked = false;
        let mut has_json = false;
        let mut has_multi_insert = false;
        let mut i: usize = 0;
        while i < args.len()
            invariant
                i <= args@.len(),
                !tokens_empty,
                args@.len() > 0,
                macro_args_spec(args@.subrange(0, i as int)) == Ok::<MacroArgsView, Seq<char>>((
                    match sql_source { Some(s) => Some(s@), None => None },
                    has_unchecked,
                    has_json,
                    has_multi_insert,
                )),
            decreases args@.len() - i,
        {
            proof {
                assert(args@.subrange(0, i + 1).drop_last() =~= args@.subrange(0, i as int));
                assert(args@.subrange(0, i + 1).last() == args@[i as int]);
            }
            let fail: Option<&str> = match &args[i] {
                MacroArg::Str(v) => {
                    if sql_source.is_none() {
                        sql_source = Some(SqlSource::Inline(v.clone()));
                        None
                    } else {
                        Some("Arguments must be either a SQL string literal, key=value pairs, 'unchecked' flag, 'json' flag, or 'multi_insert' flag")
                    }
                },
                MacroArg::OtherLit => {
                    if sql_source.is_none() {
                        Some("SQL argument must be a string literal")
                    } else {
                        Some("Arguments must be either a SQL string literal, key=value pairs, 'unchecked' flag, 'json' flag, or 'multi_insert' flag")
                    }
                },
                MacroArg::Assign(target, value) => match target {
                    ArgTarget::NotPath => Some("Invalid parameter name"),
                    ArgTarget::OtherPath => Some("Unknown parameter. Supported: file"),
                    ArgTarget::Ident(k) => {
                        if !str_eq(k.as_str(), "file") {
                            Some("Unknown parameter. Supported: file")
                        } else if sql_source.is_some() {
                            Some("Cannot specify both inline SQL and file parameter")
                        } else {
                            match value {
                                ArgValue::Str(v) => {
                                    sql_source = Some(SqlSource::File(v.clone()));
                                    None
                                },
                                _ => Some("file parameter must be a string literal"),
                            }
                        }
                    },
                },
                MacroArg::Path(Some(n)) => {
                    if str_eq(n.as_str(), "unchecked") {
                        has_unchecked = true;
                        None
                    } else if str_eq(n.as_str(), "json") {
                        has_json = true;
                        None
                    } else if str_eq(n.as_str(), "multi_insert") {
                        has_multi_insert = true;
                        None
                    } else {
                        Some("Arguments must be either a SQL string literal, key=value pairs, 'unchecked' flag, 'json' flag, or 'multi_insert' flag")
                    }
                },
                _ => Some("Arguments must be either a SQL string literal, key=value pairs, 'unchecked' flag, 'json' flag, or 'multi_insert' flag"),
            };
            if let Some(m) = fail {
                assert(macro_args_spec(args@.subrange(0, i + 1)) == Err::<MacroArgsView, Seq<char>>(m@));
                proof { lemma_macro_args_err_extends(args@, i + 1); }
                return Err(MacroError::new(string_of(m)));
            }
            i = i + 1;
        }
        proof {
            assert(args@.subrange(0, args@.len() as int) =~= args@);
        }
        match sql_source {
            Some(src) => Ok((src, has_unchecked, has_json, has_multi_insert)),
            None => Err(MacroError::new(string_of("DML attribute requires either a SQL string or file parameter"))),
        }
    }
}

} // verus!
