use sqlx_data::analysis::{FetchMethod, QueryType};
use sqlx_data::codegen::{ParamCall, ParamWrapper};
use sqlx_data::database::Database;
use sqlx_data::dml::{DmlMethod, DmlParameter, SqlStatementType};
use sqlx_data::plans::{ConversionShape, InsertExecution, MultiRowInsertGenerator};
use sqlx_data::query_calls::{
    MethodSignatureGenerator, QueryAsGenerator, QueryAsPlan, QueryGenerator, StreamGenerator,
    StreamShape, StructQueryForm, TupleConversionGenerator, ValidationForm,
};
use sqlx_data::syntax::{GenericArgument, Generics, PathArguments, PathSegment, TypeBound, TypeExpr};

fn seg(name: &str) -> PathSegment {
    PathSegment { ident: name.to_string(), arguments: PathArguments::Bare }
}

fn path(name: &str) -> TypeExpr {
    TypeExpr::Path(vec![seg(name)])
}

fn generic(name: &str, args: Vec<TypeExpr>) -> TypeExpr {
    TypeExpr::Path(vec![PathSegment {
        ident: name.to_string(),
        arguments: PathArguments::AngleBracketed(args.into_iter().map(GenericArgument::Type).collect()),
    }])
}

fn param(name: &str, ty: TypeExpr) -> DmlParameter {
    DmlParameter { name: name.to_string(), type_: ty, is_pool: false, is_dynamic_param: false, is_generic: false }
}

fn pool(name: &str) -> DmlParameter {
    DmlParameter { name: name.to_string(), type_: path("Pool"), is_pool: true, is_dynamic_param: false, is_generic: false }
}

fn dynamic(name: &str) -> DmlParameter {
    DmlParameter {
        name: name.to_string(),
        type_: path("Params"),
        is_pool: false,
        is_dynamic_param: true,
        is_generic: false,
    }
}

fn method(output: TypeExpr, sql: &str, parameters: Vec<DmlParameter>, unchecked: bool) -> DmlMethod {
    DmlMethod {
        name: "m".to_string(),
        output: Some(output),
        generics: Generics { params: vec![], where_clause: None },
        is_async: true,
        sql_content: sql.to_string(),
        parameters,
        kind: SqlStatementType::Select,
        is_json_query: false,
        is_multi_insert: false,
        is_unchecked: unchecked,
        has_explicit_instrument: false,
        trait_instrument: false,
    }
}

fn result_of(t: TypeExpr) -> TypeExpr {
    generic("Result", vec![t])
}

#[test]
fn param_names_leave_out_pool_and_dynamic_parameters() {
    let m = method(
        result_of(path("User")),
        "SELECT * FROM users WHERE id = $1 AND name = $2",
        vec![pool("conn"), param("id", path("i64")), dynamic("params"), param("name", path("String"))],
        false,
    );
    assert_eq!(MethodSignatureGenerator::generate_param_names(&m), vec!["id".to_string(), "name".to_string()]);
}

#[test]
fn tuple_insert_parameter_is_the_first_bound_iterable_of_tuples() {
    let rows = generic("Vec", vec![TypeExpr::Tuple(vec![path("i64"), path("String")])]);
    let mut m = method(
        result_of(path("QueryResult")),
        "INSERT INTO t (a, b) VALUES ($1, $2)",
        vec![param("ids", generic("Vec", vec![path("i64")])), param("rows", rows)],
        false,
    );
    m.kind = SqlStatementType::Insert;
    let found = MethodSignatureGenerator::detect_tuple_multi_insert_param(&m).unwrap();
    assert_eq!(found.name, "rows");

    let none = method(result_of(path("QueryResult")), "INSERT INTO t VALUES ($1)", vec![param("a", path("i64"))], false);
    assert!(MethodSignatureGenerator::detect_tuple_multi_insert_param(&none).is_none());
}

#[test]
fn query_method_params_decorate_only_bound_parameters_of_changes() {
    let bytes = generic("Vec", vec![path("i64")]);
    let mut m = method(
        result_of(path("QueryResult")),
        "UPDATE t SET a = $1 WHERE id = ANY($2)",
        vec![pool("conn"), param("a", path("Bytes")), param("ids", bytes)],
        false,
    );
    m.kind = SqlStatementType::Update;
    let params = MethodSignatureGenerator::generate_query_method_params(&m, Database::Postgres);
    assert_eq!(params.len(), 3);
    assert_eq!(params[0].0, "conn");
    assert!(matches!(&params[0].1, TypeExpr::Path(s) if s[0].ident == "Pool"));
    assert_eq!(params[1].0, "a");
    // `Bytes` is bound as `Vec<u8>` when the statement changes data.
    match &params[1].1 {
        TypeExpr::Path(s) => assert_eq!(s[0].ident, "Vec"),
        other => panic!("unexpected {:?}", other),
    }
    // `Vec<T>` is bound as a slice.
    assert!(matches!(&params[2].1, TypeExpr::Reference(false, inner) if matches!(**inner, TypeExpr::Slice(_))));

    let calls = MethodSignatureGenerator::generate_all_param_names(&m, Database::Postgres);
    assert_eq!(calls[0], ("conn".to_string(), ParamCall::Wrapped(ParamWrapper::Unwrapped)));
    assert_eq!(calls[1], ("a".to_string(), ParamCall::Wrapped(ParamWrapper::BytesToVec)));
    assert_eq!(calls[2], ("ids".to_string(), ParamCall::Borrow));
}

#[test]
fn plain_query_call_checked_and_unchecked() {
    let m = method(result_of(TypeExpr::Tuple(vec![])), "DELETE FROM t WHERE id = $1", vec![param("id", path("i64"))], false);
    let call = QueryGenerator::generate(&m).unwrap();
    assert!(call.checked);
    assert_eq!(call.sql, "DELETE FROM t WHERE id = $1");
    assert_eq!(call.binds, vec!["id".to_string()]);

    let u = method(
        result_of(TypeExpr::Tuple(vec![])),
        "SELECT id as 'id: i64' FROM t WHERE id = $1",
        vec![param("id", path("i64"))],
        true,
    );
    let call = QueryGenerator::generate(&u).unwrap();
    assert!(!call.checked);
    assert_eq!(call.sql, "SELECT id as id FROM t WHERE id = $1");
}

#[test]
fn struct_query_forms() {
    let checked = method(result_of(path("User")), "SELECT * FROM users", vec![], false);
    let plan = QueryAsGenerator::generate_struct_query(&checked).unwrap();
    assert_eq!(plan.form, StructQueryForm::Checked);
    assert_eq!(plan.call.sql, "SELECT * FROM users");

    let query_result = TypeExpr::Path(vec![seg("sqlx"), seg("postgres"), seg("PgQueryResult")]);
    let unchecked = method(result_of(query_result), "UPDATE users SET a = 1", vec![], true);
    let plan = QueryAsGenerator::generate_struct_query(&unchecked).unwrap();
    assert_eq!(plan.form, StructQueryForm::UncheckedQuery);

    let unchecked_user = method(result_of(path("User")), "SELECT * FROM users", vec![], true);
    let plan = QueryAsGenerator::generate_struct_query(&unchecked_user).unwrap();
    assert_eq!(plan.form, StructQueryForm::UncheckedQueryAs);
    assert!(matches!(QueryAsGenerator::generate(&unchecked_user, None, FetchMethod::FetchOne, Database::Sqlite), Ok(QueryAsPlan::Struct(_))));
}

#[test]
fn tuple_query_casts_for_sqlite() {
    // `(Option<u16>, f32)` read from SQLite, which gives `i64` and `f64`.
    let rows = generic("Vec", vec![TypeExpr::Tuple(vec![generic("Option", vec![path("u16")]), path("f32")])]);
    let m = method(
        result_of(rows),
        "SELECT birth_year, AVG(age) as avg_age FROM users GROUP BY birth_year",
        vec![],
        false,
    );
    let cols = vec!["birth_year".to_string(), "avg_age".to_string()];
    let plan = QueryAsGenerator::generate_tuple_query(&m, Some(&cols), FetchMethod::FetchAll, Database::Sqlite).unwrap();
    assert_eq!(plan.result_var, "rows");
    assert_eq!(plan.fields.len(), 2);
    assert_eq!(plan.fields[0].name, "birth_year");
    assert!(plan.fields[0].is_option);
    assert_eq!(plan.fields[0].conversion, ConversionShape::OptionCast { flatten: false, to_bool: false });
    assert_eq!(plan.fields[1].name, "avg_age");
    assert_eq!(plan.fields[1].conversion, ConversionShape::Cast { to_bool: false });
    assert!(matches!(&plan.fields[1].native, TypeExpr::Path(s) if s[0].ident == "f64"));
    assert!(plan.call.checked);
}

#[test]
fn tuple_query_i64_needs_no_cast_but_usize_does() {
    let rows = generic("Vec", vec![TypeExpr::Tuple(vec![generic("Option", vec![path("i64")]), path("usize")])]);
    let m = method(result_of(rows), "SELECT birth_year, COUNT(*) as count FROM users GROUP BY birth_year", vec![], false);
    let cols = vec!["birth_year".to_string(), "count".to_string()];
    let plan = QueryAsGenerator::generate_tuple_query(&m, Some(&cols), FetchMethod::FetchAll, Database::Sqlite).unwrap();
    assert_eq!(plan.fields[0].conversion, ConversionShape::Direct);
    assert_eq!(plan.fields[1].conversion, ConversionShape::Cast { to_bool: false });
}

#[test]
fn tuple_query_errors() {
    let rows = generic("Vec", vec![TypeExpr::Tuple(vec![path("i64"), path("String")])]);
    let m = method(result_of(rows), "SELECT id FROM t", vec![], false);
    let one = vec!["id".to_string()];
    let err = QueryAsGenerator::generate_tuple_query(&m, Some(&one), FetchMethod::FetchAll, Database::Postgres).unwrap_err();
    assert_eq!(err.message, "Tuple has 2 elements but SQL query returns 1 columns. Columns found: [\"id\"]");
    let err = QueryAsGenerator::generate_tuple_query(&m, None, FetchMethod::FetchAll, Database::Postgres).unwrap_err();
    assert_eq!(err.message, "SQL statement not available");
    let not_tuple = method(result_of(path("User")), "SELECT 1", vec![], false);
    let err = QueryAsGenerator::generate_tuple_query(&not_tuple, None, FetchMethod::FetchOne, Database::Postgres).unwrap_err();
    assert_eq!(err.message, "Expected tuple type");
}

#[test]
fn tuple_fields_with_declared_types_are_read_as_they_are() {
    let cols = vec!["count!: i64".to_string()];
    let types = vec![path("u8")];
    let fields = TupleConversionGenerator::generate_struct_fields(&cols, &types, Database::Sqlite);
    assert_eq!(fields[0].name, "count");
    assert_eq!(fields[0].explicit_type, Some("i64".to_string()));
    assert_eq!(fields[0].conversion, ConversionShape::Direct);
}

#[test]
fn result_variable_names() {
    assert_eq!(TupleConversionGenerator::generate_for_fetch(FetchMethod::FetchAll), "rows");
    assert_eq!(TupleConversionGenerator::generate_for_fetch(FetchMethod::FetchOne), "row");
    assert_eq!(TupleConversionGenerator::generate_for_fetch(FetchMethod::FetchOptional), "row_option");
    assert_eq!(TupleConversionGenerator::generate_for_fetch(FetchMethod::Execute), "result");
    assert_eq!(TupleConversionGenerator::generate_for_fetch(FetchMethod::Fetch), "stream");
}

fn stream_of(item: TypeExpr) -> TypeExpr {
    TypeExpr::ImplTrait(vec![TypeBound::Trait(vec![PathSegment {
        ident: "Stream".to_string(),
        arguments: PathArguments::AngleBracketed(vec![GenericArgument::AssocType(
            "Item".to_string(),
            generic("Result", vec![item]),
        )]),
    }])])
}

#[test]
fn stream_shapes() {
    let s = method(stream_of(path("User")), "SELECT * FROM users WHERE id > $1", vec![param("id", path("i64"))], false);
    let plan = StreamGenerator::generate(&s, QueryType::QueryAs, None, Database::Postgres).unwrap();
    assert_eq!(plan.shape, StreamShape::Struct);
    assert!(matches!(&plan.data_type, TypeExpr::Path(x) if x[0].ident == "User"));
    assert!(plan.compile_check);
    assert_eq!(plan.binds, vec!["id".to_string()]);

    let n = method(stream_of(path("i64")), "SELECT id FROM users", vec![], true);
    let plan = StreamGenerator::generate(&n, QueryType::QueryScalar, None, Database::Postgres).unwrap();
    assert_eq!(plan.shape, StreamShape::Scalar);
    assert!(!plan.compile_check);

    let t = method(stream_of(TypeExpr::Tuple(vec![path("i64"), path("String")])), "SELECT id, name FROM users", vec![], false);
    assert_eq!(
        StreamGenerator::generate(&t, QueryType::QueryAs, None, Database::Postgres).unwrap_err().message,
        "SQL statement not available"
    );
    let cols = vec!["id".to_string(), "name".to_string()];
    let plan = StreamGenerator::generate(&t, QueryType::QueryAs, Some(&cols), Database::Postgres).unwrap();
    assert_eq!(plan.shape, StreamShape::Tuple);
    assert_eq!(plan.fields.len(), 2);
    assert_eq!(plan.tuple_types.len(), 2);
}

#[test]
fn multi_insert_whole_plan() {
    let rows = generic("Vec", vec![TypeExpr::Tuple(vec![path("i64"), path("String")])]);
    let mut m = method(
        result_of(generic("Vec", vec![path("i64")])),
        "INSERT INTO t (a, b) VALUES ($1, $2) RETURNING id",
        vec![param("rows", rows)],
        false,
    );
    m.kind = SqlStatementType::Insert;
    m.is_multi_insert = true;
    let (validation, insert) = MultiRowInsertGenerator::generate(
        &m,
        QueryType::QueryScalar,
        FetchMethod::FetchAll,
        None,
        false,
        Some(" RETURNING id"),
    )
    .unwrap();
    assert!(matches!(validation.form, ValidationForm::Scalar));
    assert_eq!(validation.tuple_types.len(), 2);
    assert_eq!(insert.param_name, "rows");
    assert_eq!(insert.arity, 2);
    assert_eq!(insert.execution, InsertExecution::Scalar);
    assert_eq!(insert.returning, Some(" RETURNING id".to_string()));

    let plain = method(result_of(path("QueryResult")), "INSERT INTO t VALUES ($1)", vec![param("a", path("i64"))], false);
    assert_eq!(
        MultiRowInsertGenerator::generate(&plain, QueryType::Query, FetchMethod::Execute, None, false, None)
            .unwrap_err()
            .message,
        "Multi-insert requires a tuple parameter"
    );
}

#[test]
fn multi_insert_validation_of_tuple_rows() {
    let rows = generic("Vec", vec![TypeExpr::Tuple(vec![path("i64"), path("String")])]);
    let out = generic("Vec", vec![TypeExpr::Tuple(vec![path("i64"), path("String")])]);
    let m = method(result_of(out), "INSERT INTO t (a, b) VALUES ($1, $2) RETURNING id, name", vec![param("rows", rows)], false);
    let cols = vec!["id".to_string(), "name!: String".to_string()];
    let v = MultiRowInsertGenerator::generate_validation(&m, &m.parameters[0], QueryType::QueryAs, Some(&cols)).unwrap();
    match v.form {
        ValidationForm::TupleStruct(fields) => {
            assert_eq!(fields.len(), 2);
            assert_eq!(fields[0].0, "id");
            assert_eq!(fields[1].0, "name");
        },
        other => panic!("unexpected {:?}", other),
    }
    let plain = MultiRowInsertGenerator::generate_validation(&m, &m.parameters[0], QueryType::Query, None).unwrap();
    assert!(matches!(plain.form, ValidationForm::Plain));
}
