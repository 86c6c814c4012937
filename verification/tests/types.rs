use sqlx_data::analysis::{FetchMethod, QueryType, ReturnType, TypeAnalyzer, TypeCastingAnalyzer};
use sqlx_data::database::Database;
use sqlx_data::dml::{DmlMethod, DmlParser, FnInput, SqlStatementType};
use sqlx_data::syntax::{GenericArgument, GenericParam, Generics, PathArguments, PathSegment, TypeBound, TypeExpr, WherePredicate};

fn seg(name: &str) -> PathSegment {
    PathSegment { ident: name.to_string(), arguments: PathArguments::Bare }
}

fn seg_args(name: &str, args: Vec<GenericArgument>) -> PathSegment {
    PathSegment { ident: name.to_string(), arguments: PathArguments::AngleBracketed(args) }
}

/// `a::b::c`
fn path(names: &[&str]) -> TypeExpr {
    TypeExpr::Path(names.iter().map(|n| seg(n)).collect())
}

/// `Name<A, B>`
fn generic(name: &str, args: Vec<TypeExpr>) -> TypeExpr {
    TypeExpr::Path(vec![seg_args(name, args.into_iter().map(GenericArgument::Type).collect())])
}

fn tuple(elems: Vec<TypeExpr>) -> TypeExpr {
    TypeExpr::Tuple(elems)
}

/// `impl Stream<Item = item>`
fn impl_stream(item: TypeExpr) -> TypeExpr {
    TypeExpr::ImplTrait(vec![TypeBound::Trait(vec![seg_args(
        "Stream",
        vec![GenericArgument::AssocType("Item".to_string(), item)],
    )])])
}

fn no_generics() -> Generics {
    Generics { params: vec![], where_clause: None }
}

fn method(output: TypeExpr) -> DmlMethod {
    DmlMethod {
        name: "test".to_string(),
        output: Some(output),
        generics: no_generics(),
        is_async: false,
        sql_content: "SELECT test".to_string(),
        parameters: vec![],
        kind: SqlStatementType::Select,
        is_json_query: false,
        is_multi_insert: false,
        is_unchecked: false,
        has_explicit_instrument: false,
        trait_instrument: false,
    }
}

fn scalar(ty: TypeExpr) -> bool {
    TypeAnalyzer::is_scalar(match &ty {
        TypeExpr::Path(p) => p,
        _ => panic!("path expected"),
    }, Database::Postgres)
    .unwrap()
}

#[test]
fn test_scalar_type_analysis() {
    let analyzed = TypeAnalyzer::analyze_type(&path(&["i64"]), Database::Postgres).unwrap();
    match analyzed {
        ReturnType::Scalar { name } => assert_eq!(name, "i64"),
        _ => panic!("Expected scalar type"),
    }
}

#[test]
fn test_option_type_analysis() {
    let analyzed = TypeAnalyzer::analyze_type(&generic("Option", vec![path(&["String"])]), Database::Postgres).unwrap();
    match analyzed {
        ReturnType::Option { inner_type } => match *inner_type {
            ReturnType::Scalar { name } => assert_eq!(name, "String"),
            _ => panic!("Expected inner scalar type"),
        },
        _ => panic!("Expected Option type"),
    }
}

#[test]
fn test_vec_type_analysis() {
    let analyzed = TypeAnalyzer::analyze_type(&generic("Vec", vec![path(&["User"])]), Database::Postgres).unwrap();
    match analyzed {
        ReturnType::Vec { element_type } => match *element_type {
            ReturnType::Struct { name } => assert_eq!(name, "User"),
            _ => panic!("Expected inner struct type"),
        },
        _ => panic!("Expected Vec type"),
    }
}

#[test]
fn test_query_strategy_determination() {
    let ty = generic("Result", vec![generic("Vec", vec![path(&["User"])])]);
    let analyzed = TypeAnalyzer::analyze_type(&ty, Database::Postgres).unwrap();
    match TypeAnalyzer::determine_query_strategy(&analyzed) {
        Ok(QueryType::QueryAs) => {}
        _ => panic!("Expected QueryAs strategy"),
    }
}

#[test]
fn test_is_scalar_comprehensive() {
    for name in ["i8", "i16", "i32", "i64", "i128", "u8", "u16", "u32", "u64", "u128", "f32", "f64", "bool", "char", "usize", "isize", "String"] {
        assert!(scalar(path(&[name])), "{} should be scalar", name);
    }
    assert!(scalar(path(&["NaiveDateTime"])));
    assert!(scalar(path(&["NaiveDate"])));
    assert!(scalar(path(&["NaiveTime"])));
    assert!(scalar(generic("DateTime", vec![path(&["Utc"])])));
    assert!(scalar(path(&["Uuid"])));
    assert!(scalar(path(&["Decimal"])));
    assert!(scalar(path(&["Blob"])));
    assert!(scalar(generic("Cow", vec![path(&["str"])])));

    assert!(scalar(path(&["std", "string", "String"])));
    assert!(scalar(path(&["sqlx", "types", "chrono", "NaiveDateTime"])));
    assert!(scalar(path(&["chrono", "NaiveDate"])));
    assert!(scalar(path(&["jiff_sqlx", "Timestamp"])));
    assert!(scalar(path(&["jiff_sqlx", "DateTime"])));
    assert!(scalar(path(&["std", "primitive", "i64"])));

    assert!(!scalar(generic("Vec", vec![path(&["i32"])])));
    assert!(!scalar(generic("Option", vec![path(&["String"])])));
    assert!(!scalar(generic("Result", vec![path(&["i64"]), path(&["String"])])));
    assert!(!scalar(generic("HashMap", vec![path(&["String"]), path(&["i64"])])));
    assert!(!scalar(path(&["User"])));
    assert!(!scalar(path(&["CustomStruct"])));

    assert!(!scalar(generic("Box", vec![path(&["i64"])])));
    assert!(!scalar(generic("Arc", vec![path(&["String"])])));
    assert!(!scalar(generic("Rc", vec![path(&["NaiveDateTime"])])));
}

#[test]
fn postgres_types_are_scalars_only_for_postgres() {
    let p = match path(&["PgInterval"]) {
        TypeExpr::Path(p) => p,
        _ => unreachable!(),
    };
    assert!(TypeAnalyzer::is_scalar(&p, Database::Postgres).unwrap());
    assert!(!TypeAnalyzer::is_scalar(&p, Database::MySql).unwrap());
}

#[test]
fn analysis_of_wrappers_and_streams() {
    let ty = generic("Result", vec![path(&["User"]), path(&["Error"])]);
    match TypeAnalyzer::analyze_type(&ty, Database::Postgres).unwrap() {
        ReturnType::Result { ok_type, err_type } => {
            assert!(matches!(*ok_type, ReturnType::Struct { ref name } if name == "User"));
            assert!(matches!(*err_type, ReturnType::Struct { ref name } if name == "Error"));
        }
        _ => panic!("Expected Result"),
    }
    let ty = generic("Result", vec![path(&["i32"])]);
    match TypeAnalyzer::analyze_type(&ty, Database::Postgres).unwrap() {
        ReturnType::Result { err_type, .. } => {
            assert!(matches!(*err_type, ReturnType::Unknown { ref name } if name == "sqlx_data::Error"))
        }
        _ => panic!("Expected Result"),
    }
    let ty = impl_stream(generic("Result", vec![tuple(vec![path(&["i64"]), path(&["String"])])]));
    let analyzed = TypeAnalyzer::analyze_type(&ty, Database::Postgres).unwrap();
    assert!(matches!(analyzed, ReturnType::Stream { .. }));
    assert_eq!(TypeAnalyzer::determine_query_strategy(&analyzed).unwrap(), QueryType::QueryAs);
    assert_eq!(TypeAnalyzer::determine_fetch_method(&analyzed), FetchMethod::Fetch);

    let unit = tuple(vec![]);
    let analyzed = TypeAnalyzer::analyze_type(&unit, Database::Postgres).unwrap();
    assert!(matches!(analyzed, ReturnType::Unit));
    assert_eq!(TypeAnalyzer::determine_query_strategy(&analyzed).unwrap(), QueryType::Query);
    assert_eq!(TypeAnalyzer::determine_fetch_method(&analyzed), FetchMethod::Execute);

    let page = generic("Page", vec![path(&["User"])]);
    assert!(matches!(TypeAnalyzer::analyze_type(&page, Database::Postgres).unwrap(), ReturnType::Unknown { ref name } if name == "Page_deprecated"));
    let other = TypeExpr::Path(vec![seg("my"), seg_args("Thing", vec![GenericArgument::Type(path(&["u8"]))])]);
    assert!(matches!(TypeAnalyzer::analyze_type(&other, Database::Postgres).unwrap(), ReturnType::Unknown { ref name } if name == "my::Thing"));
}

#[test]
fn fetch_methods_and_byte_payloads() {
    let bytes = generic("Vec", vec![path(&["u8"])]);
    let analyzed = TypeAnalyzer::analyze_type(&bytes, Database::Postgres).unwrap();
    assert_eq!(TypeAnalyzer::determine_query_strategy(&analyzed).unwrap(), QueryType::QueryScalar);
    assert_eq!(TypeAnalyzer::determine_fetch_method(&analyzed), FetchMethod::FetchAll);

    let opt_bytes = generic("Option", vec![generic("Vec", vec![path(&["u8"])])]);
    let analyzed = TypeAnalyzer::analyze_type(&opt_bytes, Database::Postgres).unwrap();
    assert_eq!(TypeAnalyzer::determine_query_strategy(&analyzed).unwrap(), QueryType::QueryScalar);
    assert_eq!(TypeAnalyzer::determine_fetch_method(&analyzed), FetchMethod::FetchOptional);

    let qr = generic("Result", vec![path(&["PgQueryResult"])]);
    let analyzed = TypeAnalyzer::analyze_type(&qr, Database::Postgres).unwrap();
    assert_eq!(TypeAnalyzer::determine_fetch_method(&analyzed), FetchMethod::Execute);

    let serial = generic("Result", vec![generic("Serial", vec![path(&["User"])])]);
    let analyzed = TypeAnalyzer::analyze_type(&serial, Database::Postgres).unwrap();
    assert_eq!(TypeAnalyzer::determine_fetch_method(&analyzed), FetchMethod::FetchAll);
    assert_eq!(TypeAnalyzer::determine_query_strategy(&analyzed).unwrap(), QueryType::QueryAs);

    let user = path(&["User"]);
    let analyzed = TypeAnalyzer::analyze_type(&user, Database::Postgres).unwrap();
    assert_eq!(TypeAnalyzer::determine_fetch_method(&analyzed), FetchMethod::FetchOne);
}

#[test]
fn iterable_and_wrapper_helpers() {
    let v = generic("Vec", vec![path(&["String"])]);
    assert!(matches!(TypeAnalyzer::get_vec_inner_type(&v), Some(TypeExpr::Path(_))));
    assert!(TypeAnalyzer::get_vec_inner_type(&path(&["String"])).is_none());

    let slice = TypeExpr::Reference(false, Box::new(TypeExpr::Slice(Box::new(tuple(vec![path(&["i64"])])))));
    assert!(TypeAnalyzer::is_tuple_iterable_type(&slice, &no_generics()));
    let arr = TypeExpr::Array(Box::new(path(&["String"])));
    assert!(TypeAnalyzer::get_iterable_inner_type(&arr).is_some());
    let into_iter = TypeExpr::ImplTrait(vec![TypeBound::Trait(vec![seg_args(
        "IntoIterator",
        vec![GenericArgument::AssocType("Item".to_string(), tuple(vec![path(&["i64"]), path(&["u8"])]))],
    )])]);
    assert!(TypeAnalyzer::is_tuple_iterable_type(&into_iter, &no_generics()));

    let generics = Generics {
        params: vec![GenericParam::Type("I".to_string(), vec![])],
        where_clause: Some(vec![WherePredicate::Type(
            path(&["I"]),
            vec![TypeBound::Trait(vec![seg_args(
                "IntoIterator",
                vec![GenericArgument::AssocType(
                    "Item".to_string(),
                    TypeExpr::Reference(false, Box::new(tuple(vec![path(&["i64"]), path(&["String"])]))),
                )],
            )])],
        )]),
    };
    assert!(TypeAnalyzer::is_tuple_iterable_type(&path(&["I"]), &generics));
    assert!(TypeAnalyzer::extract_tuple_from_where_clause(&generics, "I").is_some());
    assert!(TypeAnalyzer::extract_tuple_from_where_clause(&generics, "J").is_none());

    assert!(TypeAnalyzer::is_vec_u8_type(&generic("Vec", vec![path(&["std", "u8"])])));
    assert!(!TypeAnalyzer::is_vec_u8_type(&generic("Vec", vec![path(&["i8"])])));
    assert!(TypeAnalyzer::is_bytes_type(&path(&["bytes", "Bytes"])));
    assert!(TypeAnalyzer::is_already_json_wrapped(&generic("Json", vec![path(&["User"])])));

    let into = TypeExpr::ImplTrait(vec![TypeBound::Trait(vec![seg_args("Into", vec![GenericArgument::Type(path(&["String"]))])])]);
    assert!(TypeAnalyzer::extract_impl_into_type(&into).is_some());
    assert!(TypeAnalyzer::extract_impl_into_type(&path(&["String"])).is_none());

    let p = vec![seg("a"), seg("b"), seg("Json")];
    assert!(TypeAnalyzer::ends_with_any(&p, &["Value", "Json"]));
    assert!(!TypeAnalyzer::ends_with_any(&p, &["Value"]));
    assert_eq!(TypeAnalyzer::path_to_string(&p), "a::b::Json");
    assert!(TypeAnalyzer::types_equal(&generic("Vec", vec![path(&["u8"])]), &generic("Vec", vec![path(&["u8"])])));
    assert!(!TypeAnalyzer::types_equal(&generic("Vec", vec![path(&["u8"])]), &generic("Vec", vec![path(&["i8"])])));
}

#[test]
fn casting_depends_on_database() {
    assert!(TypeCastingAnalyzer::needs_casting(&path(&["u32"]), Database::Sqlite));
    assert!(TypeCastingAnalyzer::needs_casting(&path(&["f32"]), Database::Sqlite));
    assert!(TypeCastingAnalyzer::needs_casting(&path(&["bool"]), Database::Sqlite));
    assert!(!TypeCastingAnalyzer::needs_casting(&path(&["i64"]), Database::Sqlite));
    assert!(!TypeCastingAnalyzer::needs_casting(&path(&["u32"]), Database::Postgres));
    assert!(TypeAnalyzer::types_equal(&TypeCastingAnalyzer::native_type(&path(&["u8"]), Database::Sqlite), &path(&["i64"])));
    assert!(TypeCastingAnalyzer::extract_option_type(&generic("Option", vec![path(&["i32"])])).is_some());
    assert!(TypeCastingAnalyzer::extract_option_type(&generic("Vec", vec![path(&["i32"])])).is_none());
}

#[test]
fn test_detects_impl_executor() {
    let ty = TypeExpr::ImplTrait(vec![TypeBound::Trait(vec![
        seg("sqlx"),
        seg_args("Executor", vec![GenericArgument::Other, GenericArgument::AssocType("Database".to_string(), path(&["sqlx", "Sqlite"]))]),
    ])]);
    assert!(DmlParser::is_sqlx_executor_type(&ty, &no_generics()));
}

#[test]
fn test_detects_generic_executor() {
    let generics = Generics {
        params: vec![],
        where_clause: Some(vec![WherePredicate::Type(
            path(&["EX"]),
            vec![TypeBound::Trait(vec![seg("sqlx"), seg_args("Executor", vec![GenericArgument::Other])])],
        )]),
    };
    assert!(DmlParser::is_sqlx_executor_type(&path(&["EX"]), &generics));
}

#[test]
fn test_detects_pool_reference() {
    let ty = TypeExpr::Reference(false, Box::new(generic("Pool", vec![path(&["sqlx", "Sqlite"])])));
    assert!(DmlParser::is_sqlx_executor_type(&ty, &no_generics()));
}

#[test]
fn test_rejects_non_executor() {
    assert!(!DmlParser::is_sqlx_executor_type(&path(&["String"]), &no_generics()));
}

#[test]
fn test_rejects_generic_without_executor_bound() {
    let generics = Generics {
        params: vec![],
        where_clause: Some(vec![WherePredicate::Type(path(&["T"]), vec![TypeBound::Trait(vec![seg("ToString")])])]),
    };
    assert!(!DmlParser::is_sqlx_executor_type(&path(&["T"]), &generics));
}

#[test]
fn test_debug_generic_t_tostring() {
    let generics = Generics {
        params: vec![],
        where_clause: Some(vec![WherePredicate::Type(path(&["T"]), vec![TypeBound::Trait(vec![seg("ToString")])])]),
    };
    println!("Testing T with ToString bound...");
    let result = DmlParser::is_sqlx_executor_type(&path(&["T"]), &generics);
    println!("Result: {}", result);
    assert!(!result, "T: ToString should NOT be detected as executor");
}

#[test]
fn test_inline_bound_executor() {
    let generics = Generics {
        params: vec![
            GenericParam::Other,
            GenericParam::Type("E".to_string(), vec![TypeBound::Trait(vec![seg_args("Executor", vec![GenericArgument::Other])])]),
        ],
        where_clause: None,
    };
    let result = DmlParser::is_sqlx_executor_type(&path(&["E"]), &generics);
    assert!(result, "E: Executor<'e> inline bound should be detected as executor");
}

#[test]
fn test_stream_return_types() {
    let m = method(impl_stream(generic("Result", vec![tuple(vec![path(&["i64"]), path(&["String"])])])));
    assert!(m.is_stream_type(), "Should detect Stream type");
    assert!(m.is_tuple_type(), "Should detect tuple in Stream");
    assert!(m.get_ok_type().is_some(), "Should extract tuple from Result");
    assert!(m.parse_tuple_types().is_ok(), "Should parse tuple types");

    let m = method(impl_stream(generic("Result", vec![path(&["User"])])));
    assert!(m.is_stream_type(), "Should detect Stream type");
    assert!(!m.is_tuple_type(), "Should not detect tuple for struct");
    assert!(m.get_ok_type().is_some(), "Should extract struct from Result");

    let m = method(impl_stream(generic("Result", vec![path(&["i32"])])));
    assert!(m.is_stream_type(), "Should detect Stream type");
    assert!(!m.is_tuple_type(), "Should not detect tuple for scalar");
    assert!(m.get_ok_type().is_some(), "Should extract scalar from Result");
}

#[test]
fn test_pagination_return_types() {
    for name in ["Serial", "Slice", "Cursor"] {
        let m = method(generic("Result", vec![generic(name, vec![path(&["User"])])]));
        assert!(!m.is_stream_type(), "Should not detect Stream");
        assert!(!m.is_tuple_type(), "Should not detect tuple for pagination");
        assert!(m.is_pagination_type(), "Should detect pagination type");
        assert_eq!(m.return_ok_type_name(), Some(name.to_string()));
    }
    let m = method(generic("Result", vec![generic("Serial", vec![tuple(vec![path(&["i64"]), path(&["String"])])])]));
    assert!(!m.is_stream_type(), "Should not detect Stream");
    assert!(m.is_tuple_type(), "Should detect tuple in Serial");
    assert!(m.is_pagination_type(), "Should detect pagination type");
    assert_eq!(m.return_ok_type_name(), Some("Serial".to_string()), "Should extract Serial name");
    assert!(m.parse_tuple_types().is_ok(), "Should parse tuple from Serial");
}

#[test]
fn test_struct_and_tuple_return_types() {
    let m = method(generic("Result", vec![path(&["User"])]));
    assert!(!m.is_stream_type(), "Should not detect Stream");
    assert!(!m.is_tuple_type(), "Should not detect tuple for struct");
    assert!(!m.is_pagination_type(), "Should not detect pagination");
    assert_eq!(m.return_ok_type_name(), Some("User".to_string()), "Should extract User name");

    let m = method(generic("Result", vec![tuple(vec![path(&["i64"]), path(&["String"])])]));
    assert!(!m.is_stream_type(), "Should not detect Stream");
    assert!(m.is_tuple_type(), "Should detect tuple in Result");
    assert!(!m.is_pagination_type(), "Should not detect pagination");
    assert!(m.parse_tuple_types().is_ok(), "Should parse tuple from Result");

    let m = method(generic("Result", vec![generic("Vec", vec![path(&["User"])])]));
    assert!(!m.is_stream_type(), "Should not detect Stream");
    assert!(!m.is_tuple_type(), "Should not detect tuple for Vec");
    assert!(!m.is_pagination_type(), "Should not detect pagination for Vec");
    assert_eq!(m.return_ok_type_name(), Some("Vec".to_string()), "Should extract Vec name");

    let m = method(generic("Result", vec![generic("Option", vec![path(&["User"])])]));
    assert!(!m.is_stream_type(), "Should not detect Stream");
    assert!(!m.is_tuple_type(), "Should not detect tuple for Option");
    assert!(!m.is_pagination_type(), "Should not detect pagination for Option");
    assert_eq!(m.return_ok_type_name(), Some("Option".to_string()), "Should extract Option name");
}

#[test]
fn test_scalar_return_types() {
    let m = method(generic("Result", vec![path(&["i32"])]));
    assert!(!m.is_stream_type(), "Should not detect Stream");
    assert!(!m.is_tuple_type(), "Should not detect tuple for scalar");
    assert!(!m.is_pagination_type(), "Should not detect pagination for scalar");
    assert_eq!(m.return_ok_type_name(), Some("i32".to_string()), "Should extract i32 name");

    let m = method(generic("Result", vec![path(&["String"])]));
    assert!(!m.is_stream_type(), "Should not detect Stream");
    assert!(!m.is_tuple_type(), "Should not detect tuple for String");
    assert!(!m.is_pagination_type(), "Should not detect pagination for String");
    assert_eq!(m.return_ok_type_name(), Some("String".to_string()), "Should extract String name");

    let m = method(generic("Result", vec![tuple(vec![])]));
    assert!(!m.is_stream_type(), "Should not detect Stream");
    assert!(m.is_tuple_type(), "Should detect tuple for unit (empty tuple)");
    assert!(!m.is_pagination_type(), "Should not detect pagination for unit");
}

#[test]
fn test_complex_nested_types() {
    let m = method(generic("Result", vec![generic("Vec", vec![tuple(vec![path(&["i64"]), generic("Option", vec![path(&["String"])])])])]));
    assert!(!m.is_stream_type(), "Should not detect Stream");
    assert!(m.is_tuple_type(), "Should detect tuple in Vec");
    assert!(!m.is_pagination_type(), "Should not detect pagination for Vec");
    assert_eq!(m.return_ok_type_name(), Some("Vec".to_string()), "Should extract Vec name");

    let m = method(generic("Result", vec![generic("Option", vec![tuple(vec![path(&["i64"]), path(&["String"])])])]));
    assert!(!m.is_stream_type(), "Should not detect Stream");
    assert!(m.is_tuple_type(), "Should detect tuple in Option");
    assert!(!m.is_pagination_type(), "Should not detect pagination for Option");
    assert_eq!(m.return_ok_type_name(), Some("Option".to_string()), "Should extract Option name");
}

#[test]
fn test_cache_behavior() {
    let m = method(impl_stream(generic("Result", vec![tuple(vec![path(&["i64"]), path(&["String"])])])));
    let is_tuple_1 = m.is_tuple_type();
    let is_stream_1 = m.is_stream_type();
    let ok_type_1 = m.get_ok_type().is_some();
    let is_tuple_2 = m.is_tuple_type();
    let is_stream_2 = m.is_stream_type();
    let ok_type_2 = m.get_ok_type().is_some();
    assert_eq!(is_tuple_1, is_tuple_2, "Cache should be consistent for is_tuple_type");
    assert_eq!(is_stream_1, is_stream_2, "Cache should be consistent for is_stream_type");
    assert_eq!(ok_type_1, ok_type_2, "Cache should be consistent for get_ok_type");
    assert!(is_tuple_1, "Should detect tuple");
    assert!(is_stream_1, "Should detect stream");
    assert!(ok_type_1, "Should have ok_type");
}

#[test]
fn parameters_are_read_from_the_signature() {
    let inputs = vec![
        FnInput::Receiver,
        FnInput::Typed(Some("id".to_string()), path(&["i64"])),
        FnInput::Typed(Some("pool".to_string()), TypeExpr::Reference(false, Box::new(path(&["Pool"])))),
        FnInput::Typed(Some("params".to_string()), path(&["Params"])),
    ];
    let params = DmlParser::extract_parameters(&inputs, &no_generics()).unwrap();
    assert_eq!(params.len(), 3);
    assert!(!params[0].is_pool && !params[0].is_dynamic_param);
    assert!(params[1].is_pool);
    assert!(params[2].is_dynamic_param);
    assert_eq!(DmlParser::positional_parameter_names(&params), vec!["id".to_string()]);

    let two_pools = vec![
        FnInput::Typed(Some("a".to_string()), TypeExpr::Reference(false, Box::new(path(&["Pool"])))),
        FnInput::Typed(Some("b".to_string()), TypeExpr::Reference(true, Box::new(path(&["PgConnection"])))),
    ];
    let err = DmlParser::extract_parameters(&two_pools, &no_generics()).unwrap_err();
    assert_eq!(err.to_string(), "Only one pool parameter is allowed per method");

    let pattern = vec![FnInput::Typed(None, path(&["i64"]))];
    let err = DmlParser::extract_parameters(&pattern, &no_generics()).unwrap_err();
    assert_eq!(err.to_string(), "Only simple parameter names are supported");
}

#[test]
fn validations() {
    let unit = generic("Result", vec![tuple(vec![])]);
    assert!(DmlParser::run_post_parsing_validations(&unit, &SqlStatementType::Select, false).is_err());
    assert!(DmlParser::run_post_parsing_validations(&unit, &SqlStatementType::Select, true).is_ok());
    assert!(DmlParser::run_post_parsing_validations(&unit, &SqlStatementType::Unknown, false).is_ok());
    assert!(DmlParser::run_post_parsing_validations(&path(&["User"]), &SqlStatementType::DDL, true).is_err());
    let stream = impl_stream(path(&["User"]));
    assert!(DmlParser::run_pre_parsing_validations(&stream, true).is_err());
    assert!(DmlParser::run_pre_parsing_validations(&stream, false).is_ok());
}
