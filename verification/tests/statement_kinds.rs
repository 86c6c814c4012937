use sqlx_data::database::Database;
use sqlparser::ast::Statement;
use sqlparser::dialect::GenericDialect;
use sqlparser::parser::Parser;
use sqlx_data::dml::{DmlMethod, DmlParameter, DmlParser, SqlStatementType};
use sqlx_data::query_calls::{get_deref_pattern, generate_pool_expr, DerefPattern, PoolSource};
use sqlx_data::syntax::{Generics, PathArguments, PathSegment, TypeExpr};

fn first(sql: &str) -> Statement {
    Parser::parse_sql(&GenericDialect {}, sql).unwrap().remove(0)
}

#[test]
fn statement_kinds_of_parsed_sql() {
    let cases = vec![
        ("SELECT id, name FROM users WHERE active = true", SqlStatementType::Select),
        ("INSERT INTO users (name, email) VALUES ($1, $2)", SqlStatementType::Insert),
        ("UPDATE users SET name = $2 WHERE id = $1", SqlStatementType::Update),
        ("DELETE FROM users WHERE id = $1", SqlStatementType::Delete),
        ("CREATE TABLE users (id INTEGER, name TEXT)", SqlStatementType::DDL),
        ("DROP TABLE users", SqlStatementType::DDL),
        ("ALTER TABLE users ADD COLUMN age INTEGER", SqlStatementType::DDL),
        ("CREATE INDEX idx ON users (name)", SqlStatementType::DDL),
        ("TRUNCATE TABLE users", SqlStatementType::DDL),
        ("PRAGMA cache_size = 2000", SqlStatementType::DDL),
        ("COMMIT", SqlStatementType::Unknown),
    ];
    for (sql, kind) in cases {
        let s = first(sql);
        assert_eq!(DmlParser::detect_sql_type(Some(&s)), kind, "{}", sql);
    }
    assert_eq!(DmlParser::detect_sql_type(None), SqlStatementType::Unknown);
}

fn seg(name: &str) -> PathSegment {
    PathSegment { ident: name.to_string(), arguments: PathArguments::Bare }
}

#[test]
fn connection_parameters_deref_by_kind() {
    let tx = TypeExpr::Reference(true, Box::new(TypeExpr::Path(vec![seg("sqlx"), seg("Transaction")])));
    let conn = TypeExpr::Reference(true, Box::new(TypeExpr::Path(vec![seg("SqliteConnection")])));
    let shared = TypeExpr::Reference(false, Box::new(TypeExpr::Path(vec![seg("Transaction")])));
    let pool = TypeExpr::Path(vec![seg("Pool")]);
    assert_eq!(get_deref_pattern(&tx), DerefPattern::DoubleDeref);
    assert_eq!(get_deref_pattern(&conn), DerefPattern::SingleDeref);
    assert_eq!(get_deref_pattern(&shared), DerefPattern::NoDeref);
    assert_eq!(get_deref_pattern(&pool), DerefPattern::NoDeref);
}

#[test]
fn pool_comes_from_the_first_connection_parameter() {
    let p = |name: &str, ty: TypeExpr, is_pool: bool| DmlParameter {
        name: name.to_string(),
        type_: ty,
        is_pool,
        is_dynamic_param: false,
        is_generic: false,
    };
    let mut m = DmlMethod {
        name: "m".to_string(),
        output: None,
        generics: Generics { params: vec![], where_clause: None },
        is_async: true,
        sql_content: "SELECT 1".to_string(),
        parameters: vec![
            p("id", TypeExpr::Path(vec![seg("i64")]), false),
            p("tx", TypeExpr::Reference(true, Box::new(TypeExpr::Path(vec![seg("Transaction")]))), true),
        ],
        kind: SqlStatementType::Select,
        is_json_query: false,
        is_multi_insert: false,
        is_unchecked: false,
        has_explicit_instrument: false,
        trait_instrument: false,
    };
    match generate_pool_expr(&m) {
        PoolSource::Param(name, d) => {
            assert_eq!(name, "tx");
            assert_eq!(d, DerefPattern::DoubleDeref);
        },
        PoolSource::Repository => panic!("expected the parameter"),
    }
    m.parameters.remove(1);
    assert!(matches!(generate_pool_expr(&m), PoolSource::Repository));
}

#[test]
fn statement_kinds_of_sql_text() {
    let kind = |sql: &str| DmlParser::detect_sql_type_of_sql(sql, Database::Postgres);
    assert_eq!(kind("SELECT id FROM users"), Ok(SqlStatementType::Select));
    assert_eq!(kind("SELECT 1 UNION SELECT 2"), Ok(SqlStatementType::Select));
    assert_eq!(kind("DELETE FROM users WHERE id = $1"), Ok(SqlStatementType::Delete));
    assert_eq!(kind("INSERT INTO users (name) VALUES ($1)"), Ok(SqlStatementType::Insert));
    assert_eq!(kind("DROP TABLE users"), Ok(SqlStatementType::DDL));
    assert_eq!(kind(""), Ok(SqlStatementType::Unknown));
    assert!(kind("SELEC FROM").is_err());
}
