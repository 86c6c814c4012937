use sqlx_data::analysis::{FetchMethod, QueryType};
use sqlx_data::codegen::{CodeGenerator, DocumentationGenerator, FetchCallGenerator, GeneratorKind, ParamCall, ParamWrapper, SqlxCallGenerator};
use sqlx_data::database::Database;
use sqlx_data::dml::{DmlMethod, SqlStatementType};
use sqlx_data::syntax::{GenericArgument, Generics, PathArguments, PathSegment, TypeBound, TypeExpr};

fn seg(name: &str) -> PathSegment {
    PathSegment { ident: name.to_string(), arguments: PathArguments::Bare }
}

fn path(names: &[&str]) -> TypeExpr {
    TypeExpr::Path(names.iter().map(|n| seg(n)).collect())
}

fn generic(name: &str, args: Vec<TypeExpr>) -> TypeExpr {
    TypeExpr::Path(vec![PathSegment {
        ident: name.to_string(),
        arguments: PathArguments::AngleBracketed(args.into_iter().map(GenericArgument::Type).collect()),
    }])
}

fn method(output: Option<TypeExpr>, json: bool, multi: bool) -> DmlMethod {
    DmlMethod {
        name: "m".to_string(),
        output,
        generics: Generics { params: vec![], where_clause: None },
        is_async: true,
        sql_content: String::new(),
        parameters: vec![],
        kind: SqlStatementType::Select,
        is_json_query: json,
        is_multi_insert: multi,
        is_unchecked: false,
        has_explicit_instrument: false,
        trait_instrument: false,
    }
}

#[test]
fn tracing_skips_connections_and_collections() {
    assert!(CodeGenerator::should_skip_param_for_tracing("& sqlx :: Pool < Postgres >"));
    assert!(CodeGenerator::should_skip_param_for_tracing("impl Into < String >"));
    assert!(CodeGenerator::should_skip_param_for_tracing("& mut Transaction < '_ >"));
    assert!(CodeGenerator::should_skip_param_for_tracing("Vec < i64 >"));
    assert!(!CodeGenerator::should_skip_param_for_tracing("i64"));
    assert!(!CodeGenerator::should_skip_param_for_tracing("& str"));
}

#[test]
fn documentation_wraps_code() {
    assert_eq!(
        DocumentationGenerator::generate_doc_comment("fn f() {}"),
        "Generated by #[dml] macro:\n\n```rust\nfn f() {}\n```"
    );
}

#[test]
fn generator_selection() {
    let plan = SqlxCallGenerator::prepare_generation_plan(&method(Some(generic("Result", vec![generic("Vec", vec![path(&["User"])])])), false, false), Database::Postgres).unwrap();
    assert_eq!(plan.query_type, QueryType::QueryAs);
    assert_eq!(plan.fetch_method, FetchMethod::FetchAll);
    assert_eq!(plan.generator, GeneratorKind::QueryAs);

    let plan = SqlxCallGenerator::prepare_generation_plan(&method(Some(generic("Result", vec![generic("Serial", vec![path(&["User"])])])), false, false), Database::Postgres).unwrap();
    assert_eq!(plan.generator, GeneratorKind::Paginated);

    let plan = SqlxCallGenerator::prepare_generation_plan(&method(None, false, true), Database::Postgres).unwrap();
    assert_eq!(plan.query_type, QueryType::Query);
    assert_eq!(plan.fetch_method, FetchMethod::Execute);
    assert_eq!(plan.generator, GeneratorKind::MultiRowInsert);

    let plan = SqlxCallGenerator::prepare_generation_plan(&method(Some(generic("Result", vec![path(&["i64"])])), false, false), Database::Postgres).unwrap();
    assert_eq!(plan.generator, GeneratorKind::QueryScalar);
}

#[test]
fn argument_passing() {
    let plain = method(None, false, false);
    let json = method(None, true, false);

    assert_eq!(FetchCallGenerator::transform_param_call(&path(&["i64"]), true, &plain, Database::Postgres), ParamCall::Wrapped(ParamWrapper::Unwrapped));
    assert_eq!(FetchCallGenerator::transform_param_call(&generic("Vec", vec![path(&["i64"])]), true, &plain, Database::Postgres), ParamCall::Borrow);
    assert_eq!(FetchCallGenerator::transform_param_call(&generic("Option", vec![generic("Vec", vec![path(&["i64"])])]), true, &plain, Database::Postgres), ParamCall::AsDeref);
    let into = TypeExpr::ImplTrait(vec![TypeBound::Trait(vec![PathSegment {
        ident: "Into".to_string(),
        arguments: PathArguments::AngleBracketed(vec![GenericArgument::Type(path(&["String"]))]),
    }])]);
    assert_eq!(FetchCallGenerator::transform_param_call(&into, true, &plain, Database::Postgres), ParamCall::Into(ParamWrapper::Unwrapped));
    assert_eq!(FetchCallGenerator::transform_param_call(&path(&["User"]), true, &json, Database::Postgres), ParamCall::Wrapped(ParamWrapper::Json));
    assert_eq!(FetchCallGenerator::transform_param_call(&generic("Option", vec![path(&["User"])]), true, &json, Database::Postgres), ParamCall::MapOption(false, ParamWrapper::Json));
    assert_eq!(FetchCallGenerator::transform_param_call(&path(&["bytes", "Bytes"]), true, &plain, Database::Postgres), ParamCall::Wrapped(ParamWrapper::BytesToVec));
    assert_eq!(FetchCallGenerator::get_base_wrapper(&TypeExpr::Reference(false, Box::new(path(&["str"]))), &json, Database::Postgres), ParamWrapper::Unwrapped);

    let t = FetchCallGenerator::transform_param_type(&generic("Option", vec![generic("Vec", vec![path(&["i64"])])]), true, &plain, Database::Postgres);
    match t {
        TypeExpr::Path(segs) => {
            assert_eq!(segs[0].ident, "Option");
            match &segs[0].arguments {
                PathArguments::AngleBracketed(args) => assert!(matches!(args[0], GenericArgument::Type(TypeExpr::Reference(false, _)))),
                _ => panic!("expected Option<&[i64]>"),
            }
        }
        _ => panic!("expected Option<&[i64]>"),
    }
    let t = FetchCallGenerator::transform_param_type(&path(&["User"]), true, &json, Database::MySql);
    match t {
        TypeExpr::Path(segs) => {
            let names: Vec<&str> = segs.iter().map(|s| s.ident.as_str()).collect();
            assert_eq!(names, vec!["sqlx", "types", "Json"]);
        }
        _ => panic!("expected sqlx::types::Json<User>"),
    }
    let t = FetchCallGenerator::transform_param_type(&path(&["User"]), true, &json, Database::Postgres);
    match t {
        TypeExpr::Path(segs) => {
            let names: Vec<&str> = segs.iter().map(|s| s.ident.as_str()).collect();
            assert_eq!(names, vec!["serde_json", "Value"]);
        }
        _ => panic!("expected serde_json::Value"),
    }
    assert!(!FetchCallGenerator::needs_transformation(&path(&["i64"]), true, &plain, Database::Postgres));
    assert!(FetchCallGenerator::needs_transformation(&generic("Vec", vec![path(&["i64"])]), false, &plain, Database::Postgres));
}
