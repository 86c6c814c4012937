use sqlx_data::builder::ParamsBuilder;
use sqlx_data::cursor::{CursorDirection, CursorParams};
use sqlx_data::database::Database;
use sqlx_data::dynamic_sql::{build_dynamic_sql, BuildError};
use sqlx_data::filter::{Filter, FilterOperator, FilterParams, FilterValue};
use sqlx_data::params::{Pagination, Params};
use sqlx_data::placeholders::{
    collect_numbered_placeholders, renumber_numbered_placeholders_with_binds, trim_limit_offset_placeholder_binds,
    LimitShape,
};
use sqlx_data::sort::SortingParams;

fn build(sql: &str, params: &Params) -> (String, Vec<FilterValue>) {
    let built = build_dynamic_sql(sql, params, vec![], Database::Postgres).unwrap();
    (built.sql, built.bind_values)
}

#[test]
fn test_add_where_filter() {
    let sql = "SELECT * FROM users";
    let params = ParamsBuilder::new().filter().gt("age", FilterValue::Int(25)).done().build();

    let (result_sql, binds) = build(sql, &params);

    assert!(result_sql.contains("WHERE"));
    assert!(result_sql.contains("age >"));
    assert_eq!(binds.len(), 1);
    assert_eq!(result_sql, "SELECT * FROM users WHERE age > $1");
}

#[test]
fn test_add_where_to_existing_where() {
    let sql = "SELECT * FROM users WHERE active = true";
    let params = ParamsBuilder::new().filter().gt("age", FilterValue::Int(25)).done().build();

    let (result_sql, binds) = build(sql, &params);

    assert!(result_sql.contains("WHERE"));
    assert!(result_sql.contains("active = true"));
    assert!(result_sql.contains("age >"));
    assert!(result_sql.contains("AND"));
    assert_eq!(binds.len(), 1);
    assert_eq!(result_sql, "SELECT * FROM users WHERE active = true AND age > $1");
}

#[test]
fn test_multiple_filters() {
    let sql = "SELECT * FROM users";
    let params = ParamsBuilder::new().filter().gt("age", FilterValue::Int(25)).like("name", "%john%").done().build();

    let (result_sql, binds) = build(sql, &params);

    assert!(result_sql.contains("WHERE"));
    assert!(result_sql.contains("age >"));
    assert!(result_sql.contains("name LIKE"));
    assert!(result_sql.contains("AND"));
    assert_eq!(binds.len(), 2);
    assert_eq!(result_sql, "SELECT * FROM users WHERE age > $1 AND name LIKE $2 ESCAPE '\\'");
}

#[test]
fn test_pagination() {
    let sql = "SELECT * FROM users";
    let params = ParamsBuilder::new().serial().page(2, 10).done().build();

    let (result_sql, binds) = build(sql, &params);

    assert!(result_sql.contains("LIMIT"));
    assert!(result_sql.contains("OFFSET"));
    assert_eq!(binds.len(), 0);
    assert!(result_sql.contains("LIMIT 10"));
    assert!(result_sql.contains("OFFSET 10"));
}

#[test]
fn initial_binds_keep_their_numbers() {
    let params = ParamsBuilder::new().filter().eq("active", FilterValue::Bool(true)).done().build();
    let built = build_dynamic_sql(
        "SELECT * FROM users WHERE name = $1 AND age = $2",
        &params,
        vec![FilterValue::text("john"), FilterValue::Int(25)],
        Database::Postgres,
    )
    .unwrap();
    assert_eq!(built.sql, "SELECT * FROM users WHERE name = $1 AND age = $2 AND active = $3");
    assert_eq!(built.bind_values, vec![FilterValue::text("john"), FilterValue::Int(25), FilterValue::Bool(true)]);
}

#[test]
fn no_params_keeps_the_query() {
    let (sql, binds) = build("SELECT * FROM users", &ParamsBuilder::new().build());
    assert_eq!(sql, "SELECT * FROM users");
    assert!(binds.is_empty());
}

#[test]
fn in_between_and_null_filters() {
    let params = ParamsBuilder::new()
        .filter()
        .in_values("id", vec![FilterValue::Int(1), FilterValue::Int(5)])
        .between("age", FilterValue::Int(18), FilterValue::Int(30))
        .is_null("deleted_at")
        .done()
        .build();
    let (sql, binds) = build("SELECT * FROM t", &params);
    assert_eq!(sql, "SELECT * FROM t WHERE id IN ($1, $2) AND age BETWEEN $3 AND $4 AND deleted_at IS NULL");
    assert_eq!(binds.len(), 4);
}

#[test]
fn refused_filters() {
    let empty_in = ParamsBuilder::new().filter().in_values("id", vec![]).done().build();
    match build_dynamic_sql("SELECT * FROM t", &empty_in, vec![], Database::Postgres) {
        Err(BuildError::InvalidArgument(m)) => assert_eq!(m, "In operator requires at least 1 value, got empty array"),
        other => panic!("unexpected {:?}", other),
    }
    let contains_int = ParamsBuilder::new().filter().contains("name", FilterValue::Int(3)).done().build();
    match build_dynamic_sql("SELECT * FROM t", &contains_int, vec![], Database::Postgres) {
        Err(BuildError::InvalidArgument(m)) => assert_eq!(m, "Contains operator only supports string values"),
        other => panic!("unexpected {:?}", other),
    }
}

#[test]
fn contains_wraps_the_pattern() {
    let params = ParamsBuilder::new().filter().contains("name", FilterValue::text("ab")).done().build();
    let (sql, binds) = build("SELECT * FROM t", &params);
    assert_eq!(sql, "SELECT * FROM t WHERE name LIKE $1 ESCAPE '\\'");
    assert_eq!(binds, vec![FilterValue::text("%ab%")]);
}

#[test]
fn search_binds_the_pattern_per_field() {
    let params = ParamsBuilder::new().search().search("jo", &["name", "email"]).done().build();
    let (sql, binds) = build("SELECT * FROM t WHERE a = 1", &params);
    assert_eq!(binds, vec![FilterValue::text("%jo%"), FilterValue::text("%jo%")]);
    assert!(sql.contains("LOWER(name) LIKE LOWER($1)"));
    assert!(sql.contains("a = 1 AND (LOWER(name) LIKE LOWER($1) ESCAPE '\\' OR LOWER(email) LIKE LOWER($2) ESCAPE '\\')"));
}

#[test]
fn mysql_uses_question_marks_and_no_escape() {
    let params = ParamsBuilder::new().filter().gt("age", FilterValue::Int(1)).like("n", "x%").done().build();
    let built = build_dynamic_sql("SELECT * FROM t", &params, vec![], Database::MySql).unwrap();
    assert_eq!(built.sql, "SELECT * FROM t WHERE age > ? AND n LIKE ?");
}

fn cursor_params(values: Vec<FilterValue>, direction: CursorDirection) -> Params {
    let sort = SortingParams::new().asc("a").desc("b");
    let mut params = ParamsBuilder::new().build();
    params.sort_by = Some(sort);
    let mut cursor = CursorParams::new(values[0].copy(), direction);
    for v in values.into_iter().skip(1) {
        cursor = cursor.and_field(v);
    }
    params.pagination = Some(Pagination::Cursor(cursor));
    params
}

#[test]
fn cursor_conditions_and_binds() {
    let params = cursor_params(vec![FilterValue::Int(1), FilterValue::Int(2)], CursorDirection::After);
    let (sql, binds) = build("SELECT * FROM t", &params);
    assert_eq!(sql, "SELECT * FROM t WHERE a > $1 OR (a = $1 AND b < $2) ORDER BY a ASC, b DESC");
    assert_eq!(binds, vec![FilterValue::Int(1), FilterValue::Int(2)]);

    let built = build_dynamic_sql("SELECT * FROM t", &params, vec![], Database::MySql).unwrap();
    assert_eq!(built.bind_values, vec![FilterValue::Int(1), FilterValue::Int(2), FilterValue::Int(1)]);

    let before = cursor_params(vec![FilterValue::Int(1), FilterValue::Int(2)], CursorDirection::Before);
    let (sql, _) = build("SELECT * FROM t", &before);
    assert!(sql.contains("ORDER BY a DESC, b ASC"));
}

#[test]
fn cursor_refusals() {
    let mut params = cursor_params(vec![FilterValue::Int(1)], CursorDirection::After);
    match build_dynamic_sql("SELECT * FROM t", &params, vec![], Database::Postgres) {
        Err(BuildError::InvalidArgument(m)) => {
            assert_eq!(m, "Number of cursor values (1) must match number of sort fields (2)")
        },
        other => panic!("unexpected {:?}", other),
    }
    params.sort_by = None;
    match build_dynamic_sql("SELECT * FROM t", &params, vec![], Database::Postgres) {
        Err(BuildError::InvalidArgument(m)) => {
            assert_eq!(m, "Cursor pagination requires ORDER BY clause to be defined in sort_by")
        },
        other => panic!("unexpected {:?}", other),
    }
}

#[test]
fn parse_failures() {
    let params = ParamsBuilder::new().filter().gt("a", FilterValue::Int(1)).done().build();
    match build_dynamic_sql("", &params, vec![], Database::Postgres) {
        Err(BuildError::Protocol(m)) => assert_eq!(m, "Failed to parse SQL: ``"),
        other => panic!("unexpected {:?}", other),
    }
    match build_dynamic_sql("DELETE FROM t", &params, vec![], Database::Postgres) {
        Err(BuildError::Protocol(m)) => assert_eq!(m, "Only SELECT and INSERT statements are supported"),
        other => panic!("unexpected {:?}", other),
    }
    assert!(matches!(
        build_dynamic_sql("SELEC x", &params, vec![], Database::Postgres),
        Err(BuildError::Parser(_))
    ));
}

#[test]
fn union_sides_both_get_the_conditions() {
    let params = ParamsBuilder::new().filter().eq("a", FilterValue::Int(7)).done().build();
    let (sql, binds) = build("SELECT a FROM t UNION SELECT a FROM u", &params);
    assert_eq!(sql, "SELECT a FROM t WHERE a = $1 UNION SELECT a FROM u WHERE a = $2");
    assert_eq!(binds, vec![FilterValue::Int(7), FilterValue::Int(7)]);
}

#[test]
fn placeholder_numbers_in_order() {
    assert_eq!(collect_numbered_placeholders("SELECT $2, $1, $2, $10"), vec![2, 1, 10]);
    assert_eq!(collect_numbered_placeholders("SELECT '$' || $"), Vec::<usize>::new());
    assert_eq!(collect_numbered_placeholders("$99999999999999999999999 $3"), vec![3]);
}

#[test]
fn renumbering_reorders_values() {
    let binds = vec![FilterValue::text("a"), FilterValue::text("b")];
    let (sql, values) = renumber_numbered_placeholders_with_binds("x = $2 AND y = $1 AND z = $2", &binds, &vec![1, 2], 2);
    assert_eq!(sql, "x = $1 AND y = $2 AND z = $1");
    assert_eq!(values, vec![FilterValue::text("b"), FilterValue::text("a")]);

    let (sql, values) = renumber_numbered_placeholders_with_binds("no placeholders", &binds, &vec![], 0);
    assert_eq!(sql, "no placeholders");
    assert_eq!(values, binds);
}

#[test]
fn trimming_limit_binds() {
    let mut binds = vec![FilterValue::Int(1), FilterValue::Int(10), FilterValue::Int(20)];
    let shape = Some(LimitShape::LimitOffset(Some(Some("$2".to_string())), Some(Some("$3".to_string()))));
    let removed = trim_limit_offset_placeholder_binds(&shape, &mut binds);
    assert_eq!(removed, vec![3, 2]);
    assert_eq!(binds, vec![FilterValue::Int(1)]);

    let mut binds = vec![FilterValue::Int(1), FilterValue::Int(10)];
    let shape = Some(LimitShape::OffsetCommaLimit(Some("?".to_string()), None));
    assert!(trim_limit_offset_placeholder_binds(&shape, &mut binds).is_empty());
    assert_eq!(binds, vec![FilterValue::Int(1)]);
}

#[test]
fn limit_placeholders_are_replaced() {
    let params = ParamsBuilder::new().limit(5).build();
    let built = build_dynamic_sql(
        "SELECT * FROM t WHERE a = $1 LIMIT $2",
        &params,
        vec![FilterValue::Int(1), FilterValue::Int(100)],
        Database::Postgres,
    )
    .unwrap();
    assert_eq!(built.sql, "SELECT * FROM t WHERE a = $1 LIMIT 5");
    assert_eq!(built.bind_values, vec![FilterValue::Int(1)]);
}

#[test]
fn like_patterns_match_literally() {
    let params = ParamsBuilder::new().filter().like("filename", "test_file%.txt").done().build();
    let (sql, binds) = build("SELECT * FROM files", &params);
    assert_eq!(sql, r"SELECT * FROM files WHERE filename LIKE $1 ESCAPE '\'");
    assert_eq!(binds, vec![FilterValue::text(r"test\_file\%.txt")]);
}

#[test]
fn contains_escapes_the_text() {
    let params = ParamsBuilder::new().filter().contains("note", FilterValue::text(r"50%_a\b")).done().build();
    let (_, binds) = build("SELECT * FROM t", &params);
    assert_eq!(binds, vec![FilterValue::text(r"%50\%\_a\\b%")]);
}

#[test]
fn ilike_escapes_and_lowercases_outside_postgres() {
    let params = ParamsBuilder::new().filter().ilike("name", "A_b").done().build();
    let pg = build_dynamic_sql("SELECT * FROM t", &params, vec![], Database::Postgres).unwrap();
    assert_eq!(pg.sql, r"SELECT * FROM t WHERE name ILIKE $1 ESCAPE '\'");
    assert_eq!(pg.bind_values, vec![FilterValue::text(r"A\_b")]);
    let lite = build_dynamic_sql("SELECT * FROM t", &params, vec![], Database::Sqlite).unwrap();
    assert_eq!(lite.sql, r"SELECT * FROM t WHERE LOWER(name) LIKE $1 ESCAPE '\'");
    assert_eq!(lite.bind_values, vec![FilterValue::text(r"a\_b")]);
}

#[test]
fn numbering_stops_at_255_placeholders() {
    let values = |n: i64| (0..n).map(FilterValue::Int).collect::<Vec<_>>();
    let fits = ParamsBuilder::new().filter().is_in("id", values(255)).done().build();
    let built = build_dynamic_sql("SELECT * FROM t", &fits, vec![], Database::Postgres).unwrap();
    assert_eq!(built.bind_values.len(), 255);
    assert!(built.sql.ends_with("$255)"));
    let too_many = ParamsBuilder::new().filter().is_in("id", values(256)).done().build();
    assert!(matches!(
        build_dynamic_sql("SELECT * FROM t", &too_many, vec![], Database::Postgres),
        Err(BuildError::TooManyPlaceholders)
    ));
    let mysql = build_dynamic_sql("SELECT * FROM t", &too_many, vec![], Database::MySql).unwrap();
    assert_eq!(mysql.bind_values.len(), 256);
}

fn refusal(filter: Filter) -> String {
    let params = Params { filters: Some(FilterParams { filters: vec![filter] }), ..Params::default() };
    match build_dynamic_sql("SELECT * FROM t", &params, vec![], Database::Postgres) {
        Err(BuildError::InvalidArgument(m)) => m,
        other => panic!("unexpected {:?}", other),
    }
}

#[test]
fn refusals_quote_the_value() {
    assert_eq!(
        refusal(Filter::new("age", FilterOperator::Between, FilterValue::text("a\"b"))),
        "Between operator requires an array of values, got String(\"a\\\"b\")"
    );
    assert_eq!(
        refusal(Filter::new("id", FilterOperator::In, FilterValue::Int(-5))),
        "In operator requires an array of values, got Int(-5)"
    );
    assert_eq!(
        refusal(Filter::new("id", FilterOperator::NotIn, FilterValue::Blob(vec![1, 20]))),
        "NotIn operator requires an array of values, got Blob([1, 20])"
    );
    assert_eq!(
        refusal(Filter::new("id", FilterOperator::In, FilterValue::Null)),
        "In operator requires an array of values, got Null"
    );
    assert_eq!(
        refusal(Filter::new("id", FilterOperator::Between, FilterValue::Array(vec![FilterValue::Bool(true)]))),
        "Between operator requires exactly 2 values, got 1"
    );
}
