use sqlx_data::analysis::{FetchMethod, QueryType};
use sqlx_data::database::Database;
use sqlx_data::dml::{DmlMethod, DmlParameter, SqlStatementType};
use sqlx_data::plans::{
    explicit_type_text, extract_sqlx_explicit_type, ConversionShape, EmptyReturn, InsertExecution, MultiRowInsertGenerator, PaginatedGenerator,
    PaginationKind, QueryScalarGenerator, ScalarShape,
};
use sqlx_data::syntax::{GenericArgument, Generics, PathArguments, PathSegment, TypeBound, TypeExpr};

fn seg(name: &str) -> PathSegment {
    PathSegment { ident: name.to_string(), arguments: PathArguments::Bare }
}

fn path(name: &str) -> TypeExpr {
    TypeExpr::Path(vec![seg(name)])
}

fn generic(name: &str, args: Vec<TypeExpr>) -> TypeExpr {
    TypeExpr::Path(vec![PathSegment {
        ident: name.to_string(),
        arguments: PathArguments::AngleBracketed(args.into_iter().map(GenericArgument::Type).collect()),
    }])
}

fn param(name: &str, ty: TypeExpr, dynamic: bool, generic_param: bool) -> DmlParameter {
    DmlParameter { name: name.to_string(), type_: ty, is_pool: false, is_dynamic_param: dynamic, is_generic: generic_param }
}

fn method(output: TypeExpr, sql: &str, parameters: Vec<DmlParameter>, unchecked: bool) -> DmlMethod {
    DmlMethod {
        name: "m".to_string(),
        output: Some(output),
        generics: Generics { params: vec![], where_clause: None },
        is_async: true,
        sql_content: sql.to_string(),
        parameters,
        kind: SqlStatementType::Select,
        is_json_query: false,
        is_multi_insert: false,
        is_unchecked: unchecked,
        has_explicit_instrument: false,
        trait_instrument: false,
    }
}

#[test]
fn test_extract_sqlx_explicit_type() {
    assert!(extract_sqlx_explicit_type("name: String").is_some());
    assert!(extract_sqlx_explicit_type("age: u8").is_some());
    assert!(extract_sqlx_explicit_type("count!: i64").is_some());
    assert!(extract_sqlx_explicit_type("name : String ").is_some());

    assert!(extract_sqlx_explicit_type("name").is_none());
    assert!(extract_sqlx_explicit_type("age_value").is_none());
}

#[test]
fn explicit_types_must_parse() {
    assert_eq!(extract_sqlx_explicit_type("a: Option<i64>"), Some("Option<i64>".to_string()));
    assert_eq!(extract_sqlx_explicit_type("a: 12 + "), None);
    assert_eq!(extract_sqlx_explicit_type("a:"), None);
}

#[test]
fn explicit_type_text_is_trimmed() {
    assert_eq!(explicit_type_text("count!: i64"), Some("i64"));
    assert_eq!(explicit_type_text("name : String "), Some("String"));
    assert_eq!(explicit_type_text("a: Option<i64>"), Some("Option<i64>"));
}

#[test]
fn struct_pagination_plan() {
    let page = generic("Result", vec![generic("Serial", vec![path("User")])]);
    let m = method(
        page,
        "SELECT id as 'id: i64' FROM users",
        vec![param("pool", path("Pool"), false, false), param("params", path("SerialParams"), true, false)],
        false,
    );
    let plan = PaginatedGenerator::generate_struct_pagination(&m).unwrap();
    assert_eq!(plan.kind, PaginationKind::Serial);
    assert_eq!(plan.page_name, "Serial");
    assert_eq!(plan.param_name, "params");
    assert!(plan.import_into_params);
    assert_eq!(plan.cleaned_sql, "SELECT id as id FROM users");
    assert!(plan.compile_validation);
}

#[test]
fn struct_pagination_errors() {
    let no_page = method(path("User"), "SELECT 1", vec![], false);
    assert_eq!(
        PaginatedGenerator::generate_struct_pagination(&no_page).unwrap_err().message,
        "Expected paginated return type (Serial<T>, Slice<T>, or Cursor<T>)"
    );
    let page = generic("Result", vec![generic("Cursor", vec![path("User")])]);
    let no_param = method(page, "SELECT 1", vec![param("id", path("i64"), false, false)], true);
    assert_eq!(
        PaginatedGenerator::generate_struct_pagination(&no_param).unwrap_err().message,
        "Page<T> return type requires a dynamic parameter (impl IntoParams, Params, PaginationParams, etc.)"
    );
}

#[test]
fn pagination_kinds() {
    assert_eq!(PaginatedGenerator::pagination_kind("Serial"), PaginationKind::Serial);
    assert_eq!(PaginatedGenerator::pagination_kind("Slice"), PaginationKind::Slice);
    assert_eq!(PaginatedGenerator::pagination_kind("Cursor"), PaginationKind::Cursor);
    assert_eq!(PaginatedGenerator::pagination_kind("Page"), PaginationKind::Other);
}

#[test]
fn tuple_pagination_plan_and_fields() {
    let page = generic(
        "Result",
        vec![generic("Slice", vec![TypeExpr::Tuple(vec![path("i32"), generic("Option", vec![path("bool")])])])],
    );
    let impl_params = TypeExpr::ImplTrait(vec![TypeBound::Trait(vec![seg("IntoParams")])]);
    let m = method(page, "SELECT id, active FROM t", vec![param("p", impl_params, true, true)], false);
    let cols = vec!["id".to_string(), "active!: bool".to_string()];
    let (plan, fields) = PaginatedGenerator::generate_tuple_pagination(&m, Some(&cols), Database::Sqlite).unwrap();
    assert_eq!(plan.kind, PaginationKind::Slice);
    assert!(!plan.import_into_params);
    assert_eq!(fields.len(), 2);
    assert_eq!(fields[0].name, "id");
    assert_eq!(fields[0].explicit_type, None);
    assert!(!fields[0].is_option);
    assert!(fields[0].native.same_as(&path("i64")));
    assert_eq!(fields[0].conversion, ConversionShape::Cast { to_bool: false });
    assert_eq!(fields[1].name, "active");
    assert_eq!(fields[1].explicit_type.as_deref(), Some("bool"));
    assert!(fields[1].is_option);
    assert_eq!(fields[1].conversion, ConversionShape::Direct);

    let wrong = vec!["id".to_string()];
    assert_eq!(
        PaginatedGenerator::generate_tuple_pagination(&m, Some(&wrong), Database::Sqlite).unwrap_err().message,
        "Tuple has 2 elements but SQL query returns 1 columns"
    );
    assert_eq!(
        PaginatedGenerator::generate_tuple_pagination(&m, None, Database::Sqlite).unwrap_err().message,
        "SQL statement not available"
    );
}

#[test]
fn scalar_plans() {
    let count = method(generic("Result", vec![path("i64")]), "SELECT COUNT(*) FROM t", vec![], false);
    let plan = QueryScalarGenerator::generate(&count, FetchMethod::FetchOne, None, Database::Postgres).unwrap();
    assert_eq!(plan.shape, ScalarShape::Direct);
    assert_eq!(plan.conversion, ConversionShape::Direct);

    let narrow = method(generic("Result", vec![path("u32")]), "SELECT COUNT(*) FROM t", vec![], false);
    let plan = QueryScalarGenerator::generate(&narrow, FetchMethod::FetchOne, None, Database::Sqlite).unwrap();
    assert_eq!(plan.shape, ScalarShape::Cast);
    assert_eq!(plan.conversion, ConversionShape::Cast { to_bool: false });
    let plan = QueryScalarGenerator::generate(&narrow, FetchMethod::FetchOne, Some("n!: u32"), Database::Sqlite)
        .unwrap();
    assert_eq!(plan.shape, ScalarShape::Direct);

    let maybe = method(
        generic("Result", vec![generic("Option", vec![path("bool")])]),
        "SELECT flag FROM t",
        vec![],
        false,
    );
    let plan = QueryScalarGenerator::generate(&maybe, FetchMethod::FetchOptional, None, Database::Sqlite).unwrap();
    assert_eq!(plan.shape, ScalarShape::FlattenCast);
    assert!(plan.target_type.same_as(&path("bool")));

    let all = method(
        generic("Result", vec![generic("Vec", vec![generic("Option", vec![path("u8")])])]),
        "SELECT v FROM t",
        vec![],
        false,
    );
    let plan = QueryScalarGenerator::generate(&all, FetchMethod::FetchAll, None, Database::Sqlite).unwrap();
    assert_eq!(plan.shape, ScalarShape::VecCast { option_rows: true });

    let unchecked = method(generic("Result", vec![path("i64")]), "SELECT n as 'n: i64' FROM t", vec![], true);
    let plan = QueryScalarGenerator::generate(&unchecked, FetchMethod::FetchOne, None, Database::Postgres).unwrap();
    assert_eq!(plan.shape, ScalarShape::Unchecked);
    assert_eq!(plan.cleaned_sql, "SELECT n as n FROM t");
}

#[test]
fn insert_plans() {
    let rows = generic("Vec", vec![TypeExpr::Tuple(vec![path("String"), path("i32")])]);
    let p = param("rows", rows, false, false);
    let m = method(generic("Result", vec![path("QueryResult")]), "INSERT INTO t (a, b) VALUES ($1, $2)", vec![], false);
    let plan = MultiRowInsertGenerator::generate_query_builder(
        &m,
        &p,
        QueryType::Query,
        FetchMethod::Execute,
        false,
        Some(" RETURNING id as 'id: i64'"),
    )
    .unwrap();
    assert_eq!(plan.param_name, "rows");
    assert_eq!(plan.arity, 2);
    assert!(!plan.by_ref);
    assert_eq!(plan.empty_return, EmptyReturn::DefaultResult);
    assert_eq!(plan.execution, InsertExecution::Execute);
    assert_eq!(plan.returning.as_deref(), Some(" RETURNING id as id"));

    let borrowed = TypeExpr::Reference(
        false,
        Box::new(TypeExpr::Slice(Box::new(TypeExpr::Tuple(vec![path("i64")])))),
    );
    let p = param("rows", borrowed, false, false);
    let plan =
        MultiRowInsertGenerator::generate_query_builder(&m, &p, QueryType::QueryScalar, FetchMethod::FetchAll, false, None)
            .unwrap();
    assert!(plan.by_ref);
    assert_eq!(plan.empty_return, EmptyReturn::EmptyVec);
    assert_eq!(plan.execution, InsertExecution::Scalar);

    assert_eq!(
        MultiRowInsertGenerator::generate_query_builder(&m, &p, QueryType::Query, FetchMethod::Execute, true, None)
            .unwrap_err()
            .message,
        "SQL functions in VALUES clause not supported"
    );
    let not_rows = param("n", path("i64"), false, false);
    assert_eq!(
        MultiRowInsertGenerator::get_tuple_types(&not_rows.type_, &m).unwrap_err().message,
        "Expected tuple parameter"
    );
    let scalars = param("xs", generic("Vec", vec![path("i64")]), false, false);
    assert_eq!(MultiRowInsertGenerator::get_tuple_types(&scalars.type_, &m).unwrap_err().message, "Expected tuple type");
    assert_eq!(MultiRowInsertGenerator::empty_return(true, FetchMethod::Execute, QueryType::Query), EmptyReturn::NoCheck);
    assert_eq!(
        MultiRowInsertGenerator::empty_return(false, FetchMethod::FetchOptional, QueryType::QueryAs),
        EmptyReturn::NoneValue
    );
}
