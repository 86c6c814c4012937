//! `#[generate_versions(..)]`: extra versions of a repository method that
//! take the connection as an argument (a pool, a transaction, a connection
//! or any executor), named with a suffix.
use vstd::prelude::*;
use crate::dml::FnInput;
use crate::error::MacroError;
use crate::syntax::{TypeExpr, PathSegment, PathArguments, GenericArgument, TypeBound, TypeView, SegmentView, ArgumentsView, BoundView, ArgumentView};
use crate::text::{str_eq, string_of};

verus! {

/// The kind of connection an extra version takes.
#[derive(Debug, Clone, Copy, PartialEq, Eq, Structural)]
pub enum VariantType {
    /// `pool: &sqlx_data::Pool`, suffix `_with_pool`.
    Pool,
    /// `transaction: &mut sqlx_data::Transaction<'_>`, suffix `_with_tx`.
    Tx,
    /// `connection: &mut sqlx_data::Connection`, suffix `_with_conn`.
    Conn,
    /// `executor: impl sqlx_data::Executor<'_>`, suffix `_with_executor`.
    Exec,
}

/// One requested version.
#[derive(Debug, Clone, Copy)]
pub struct VariantConfig {
    pub variant_type: VariantType,
}

/// The version a name asks for: `pool`, `tx`, `conn` or `exec`.
pub open spec fn variant_from_spec(s: Seq<char>) -> Option<VariantType> {
    if s == "pool"@ {
        Some(VariantType::Pool)
    } else if s == "tx"@ {
        Some(VariantType::Tx)
    } else if s == "conn"@ {
        Some(VariantType::Conn)
    } else if s == "exec"@ {
        Some(VariantType::Exec)
    } else {
        None
    }
}

/// The suffix of the version's name.
pub open spec fn suffix_spec(v: VariantType) -> Seq<char> {
    match v {
        VariantType::Pool => "_with_pool"@,
        VariantType::Tx => "_with_tx"@,
        VariantType::Conn => "_with_conn"@,
        VariantType::Exec => "_with_executor"@,
    }
}

/// The segment `sqlx_data` followed by the segment `name` with `arguments`.
pub open spec fn crate_path_view(name: Seq<char>, arguments: ArgumentsView) -> Seq<SegmentView> {
    seq![
        SegmentView { ident: "sqlx_data"@, arguments: ArgumentsView::Bare },
        SegmentView { ident: name, arguments },
    ]
}

/// The parameter name and type a version adds.
pub open spec fn variant_param_spec(v: VariantType) -> (Seq<char>, TypeView) {
    match v {
        VariantType::Pool => ("pool"@, TypeView::Reference(false, Box::new(TypeView::Path(crate_path_view("Pool"@, ArgumentsView::Bare))))),
        VariantType::Tx => ("transaction"@, TypeView::Reference(true, Box::new(TypeView::Path(crate_path_view(
            "Transaction"@,
            ArgumentsView::AngleBracketed(seq![ArgumentView::Other]),
        ))))),
        VariantType::Conn => ("connection"@, TypeView::Reference(true, Box::new(TypeView::Path(crate_path_view("Connection"@, ArgumentsView::Bare))))),
        VariantType::Exec => ("executor"@, TypeView::ImplTrait(seq![BoundView::Trait(crate_path_view(
            "Executor"@,
            ArgumentsView::AngleBracketed(seq![ArgumentView::Other]),
        ))])),
    }
}

impl VariantConfig {
    /// The version named by `s`; other names are an error.
    pub fn parse(s: &str) -> (r: Result<VariantConfig, MacroError>)
        ensures
            match variant_from_spec(s@) {
                Some(v) => r matches Ok(c) && c.variant_type == v,
                None => r matches Err(e) && e.message@ == "Invalid variant type. Expected: pool, tx, conn, or exec"@,
            },
    {
        let variant_type = if str_eq(s, "pool") {
            VariantType::Pool
        } else if str_eq(s, "tx") {
            VariantType::Tx
        } else if str_eq(s, "conn") {
            VariantType::Conn
        } else if str_eq(s, "exec") {
            VariantType::Exec
        } else {
            return Err(MacroError::new(string_of("Invalid variant type. Expected: pool, tx, conn, or exec")));
        };
        Ok(VariantConfig { variant_type })
    }
}

/// The suffix of a version's name.
pub fn get_variant_suffix(variant_type: &VariantType) -> (r: &'static str)
    ensures
        r@ == suffix_spec(*variant_type),
{
    match variant_type {
        VariantType::Pool => "_with_pool",
        VariantType::Tx => "_with_tx",
        VariantType::Conn => "_with_conn",
        VariantType::Exec => "_with_executor",
    }
}

/// The path `sqlx_data::name` with `arguments`.
fn crate_path(name: &str, arguments: PathArguments) -> (r: Vec<PathSegment>)
    ensures
        crate::syntax::path_view(r@) == crate_path_view(name@, arguments.arguments_view()),
{
    let mut segs: Vec<PathSegment> = Vec::new();
    segs.push(PathSegment { ident: string_of("sqlx_data"), arguments: PathArguments::Bare });
    let ghost av = arguments.arguments_view();
    segs.push(PathSegment { ident: string_of(name), arguments });
    proof {
        let pv = crate::syntax::path_view(segs@);
        assert(pv[0] == segs@[0].segment_view());
        assert(pv[1] == segs@[1].segment_view());
        assert(pv =~= crate_path_view(name@, av));
    }
    segs
}

/// `<'_>`: one lifetime argument.
fn lifetime_args() -> (r: PathArguments)
    ensures
        r.arguments_view() == ArgumentsView::AngleBracketed(seq![ArgumentView::Other]),
{
    let mut args: Vec<GenericArgument> = Vec::new();
    args.push(GenericArgument::Other);
    let r = PathArguments::AngleBracketed(args);
    assert(r.arguments_view()->AngleBracketed_0 =~= seq![ArgumentView::Other]);
    r
}

/// The parameter a version adds (name and type).
pub fn generate_variant_parameter(variant_type: &VariantType) -> (r: (String, TypeExpr))
    ensures
        (r.0@, r.1@) == variant_param_spec(*variant_type),
{
    match variant_type {
        VariantType::Pool => {
            let p = crate_path("Pool", PathArguments::Bare);
            let ghost pv = crate::syntax::path_view(p@);
            let inner = TypeExpr::Path(p);
            assert(inner@ == TypeView::Path(pv));
            let t = TypeExpr::Reference(false, Box::new(inner));
            assert(t@ == TypeView::Reference(false, Box::new(TypeView::Path(pv))));
            assert(t@ == variant_param_spec(VariantType::Pool).1);
            (string_of("pool"), t)
        },
        VariantType::Tx => {
            let p = crate_path("Transaction", lifetime_args());
            let ghost pv = crate::syntax::path_view(p@);
            let inner = TypeExpr::Path(p);
            assert(inner@ == TypeView::Path(pv));
            let t = TypeExpr::Reference(true, Box::new(inner));
            assert(t@ == TypeView::Reference(true, Box::new(TypeView::Path(pv))));
            assert(t@ == variant_param_spec(VariantType::Tx).1);
            (string_of("transaction"), t)
        },
        VariantType::Conn => {
            let p = crate_path("Connection", PathArguments::Bare);
            let ghost pv = crate::syntax::path_view(p@);
            let inner = TypeExpr::Path(p);
            assert(inner@ == TypeView::Path(pv));
            let t = TypeExpr::Reference(true, Box::new(inner));
            assert(t@ == TypeView::Reference(true, Box::new(TypeView::Path(pv))));
            assert(t@ == variant_param_spec(VariantType::Conn).1);
            (string_of("connection"), t)
        },
        VariantType::Exec => {
            let p = crate_path("Executor", lifetime_args());
            let ghost pv = crate::syntax::path_view(p@);
            let mut bounds: Vec<TypeBound> = Vec::new();
            bounds.push(TypeBound::Trait(p));
            let t = TypeExpr::ImplTrait(bounds);
            proof {
                assert(bounds@[0].bound_view() == BoundView::Trait(pv));
                assert(t@->ImplTrait_0 =~= variant_param_spec(VariantType::Exec).1->ImplTrait_0);
            }
            (string_of("executor"), t)
        },
    }
}

/// The abstract content of a method argument: `None` for `self`, else the
/// identifier (when the pattern is one) and the type.
pub open spec fn input_view(i: FnInput) -> Option<(Option<Seq<char>>, TypeView)> {
    match i {
        FnInput::Receiver => None,
        FnInput::Typed(n, t) => Some((match n { Some(s) => Some(s@), None => None }, t@)),
    }
}

/// The arguments of a version: the first argument of the method (the receiver),
/// then the added parameter, then the remaining arguments.
pub open spec fn variant_inputs_spec(inputs: Seq<FnInput>, v: VariantType) -> Seq<Option<(Option<Seq<char>>, TypeView)>> {
    let added = Some((Some(variant_param_spec(v).0), variant_param_spec(v).1));
    let given = inputs.map_values(|i: FnInput| input_view(i));
    if inputs.len() == 0 {
        seq![added]
    } else {
        seq![given[0]].push(added) + given.drop_first()
    }
}

/// An exact copy of a method argument.
fn copy_input(i: &FnInput) -> (r: FnInput)
    ensures
        input_view(r) == input_view(*i),
{
    match i {
        FnInput::Receiver => FnInput::Receiver,
        FnInput::Typed(n, t) => FnInput::Typed(
            match n {
                Some(s) => Some(s.clone()),
                None => None,
            },
            t.copy(),
        ),
    }
}

/// The name and arguments of a version of the method `name` with `inputs`.
pub fn generate_single_variant(name: &str, inputs: &Vec<FnInput>, variant: &VariantConfig) -> (r: (String, Vec<FnInput>))
    ensures
        r.0@ == name@ + suffix_spec(variant.variant_type),
        r.1@.map_values(|i: FnInput| input_view(i)) == variant_inputs_spec(inputs@, variant.variant_type),
{
    let mut new_name = string_of(name);
    new_name.append(get_variant_suffix(&variant.variant_type));
    let (pname, ptype) = generate_variant_parameter(&variant.variant_type);
    let ghost added = Some((Some(pname@), ptype@));
    let mut out: Vec<FnInput> = Vec::new();
    let ghost given = inputs@.map_values(|i: FnInput| input_view(i));
    if inputs.len() == 0 {
        out.push(FnInput::Typed(Some(pname), ptype));
        assert(out@.map_values(|i: FnInput| input_view(i)) =~= seq![added]);
        return (new_name, out);
    }
    out.push(copy_input(&inputs[0]));
    out.push(FnInput::Typed(Some(pname), ptype));
    let ghost head = out@.map_values(|i: FnInput| input_view(i));
    proof {
        assert(head =~= seq![given[0]].push(added));
        assert(given.subrange(1, 1) =~= Seq::<Option<(Option<Seq<char>>, TypeView)>>::empty());
        assert(head + given.subrange(1, 1) =~= head);
    }
    let mut i: usize = 1;
    while i < inputs.len()
        invariant
            1 <= i <= inputs@.len(),
            given == inputs@.map_values(|i: FnInput| input_view(i)),
            out@.map_values(|i: FnInput| input_view(i)) == head + given.subrange(1, i as int),
        decreases inputs@.len() - i,
    {
        let ghost before = out@.map_values(|i: FnInput| input_view(i));
        out.push(copy_input(&inputs[i]));
        proof {
            assert(out@.map_values(|i: FnInput| input_view(i)) =~= before.push(given[i as int]));
            assert(given.subrange(1, i + 1) =~= given.subrange(1, i as int).push(given[i as int]));
            assert(head + given.subrange(1, i + 1) =~= (head + given.subrange(1, i as int)).push(given[i as int]));
        }
        i = i + 1;
    }
    proof {
        assert(given.subrange(1, inputs@.len() as int) =~= given.drop_first());
    }
    (new_name, out)
}

} // verus!
