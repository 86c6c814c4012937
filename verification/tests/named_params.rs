use std::time::Instant;
use sqlx_data::database::Database;
use sqlx_data::dml::{DmlParameter, DmlParser};
use sqlx_data::named_params::{convert_named_to_positional, named_param_is_match, named_param_names};
use sqlx_data::syntax::{PathArguments, PathSegment, TypeExpr};

fn is_match(s: &str) -> bool {
    named_param_is_match(s).unwrap()
}

fn names(s: &str) -> Vec<String> {
    named_param_names(s).unwrap()
}

fn simple(name: &str) -> TypeExpr {
    TypeExpr::Path(vec![PathSegment { ident: name.to_string(), arguments: PathArguments::Bare }])
}

fn param(name: &str, ty: TypeExpr, is_pool: bool) -> DmlParameter {
    DmlParameter { name: name.to_string(), type_: ty, is_pool, is_dynamic_param: false, is_generic: false }
}

fn test_parameters() -> Vec<DmlParameter> {
    vec![
        param("name", simple("String"), false),
        param("age", simple("i32"), false),
        param("pool", TypeExpr::Reference(false, Box::new(simple("Pool"))), true),
    ]
}

#[test]
fn test_named_param_regex_matching() {
    assert!(is_match("@param"));
    assert!(is_match("@min_age"));
    assert!(is_match("@name_pattern"));
    assert!(is_match("@user_id"));
    assert!(is_match("@_private_param"));
    assert!(is_match("@param123"));
    assert!(is_match("@param_with_123_numbers"));
    assert!(is_match("@CamelCase"));
    assert!(is_match("@UPPERCASE_PARAM"));
    assert!(is_match("@a"));
    assert!(is_match("@_"));

    let long_param = format!("@{}", "a".repeat(63));
    assert!(is_match(&long_param));

    assert!(!is_match("@123param"));
    assert!(!is_match("@-param"));
    assert!(!is_match("@@param"));
    assert!(is_match("@param-name"));
    assert!(is_match("@param.name"));
    assert!(is_match("@param name"));
    assert!(is_match("@param@"));
    assert!(!is_match("param"));
    assert!(!is_match("@"));
    assert!(is_match("@param/name"));
    assert!(is_match("@param+name"));

    let too_long_param = format!("@{}", "a".repeat(64));
    assert!(is_match(&too_long_param));
}

#[test]
fn test_named_param_regex_replacement() {
    let sql = "SELECT * FROM users WHERE id = @user_id";
    let replaced = convert_named_to_positional(sql, &vec!["user_id".to_string()], Database::Postgres).unwrap();
    assert_eq!(replaced, "SELECT * FROM users WHERE id = $1");

    let sql = "SELECT * FROM users WHERE age > @min_age AND name LIKE @name_pattern";
    let order = vec!["min_age".to_string(), "name_pattern".to_string()];
    let result = convert_named_to_positional(sql, &order, Database::Postgres).unwrap();
    assert_eq!(result, "SELECT * FROM users WHERE age > $1 AND name LIKE $2");

    let sql = "SELECT * FROM table WHERE col1 = @param1 AND col2 = @param2 AND col1 = @param1";
    let order = vec!["param1".to_string(), "param2".to_string()];
    let result = convert_named_to_positional(sql, &order, Database::Postgres).unwrap();
    assert_eq!(result, "SELECT * FROM table WHERE col1 = $1 AND col2 = $2 AND col1 = $1");
    assert_eq!(order.len(), 2);
}

#[test]
fn test_named_param_regex_complex_sql() {
    let complex_sql = r#"
            SELECT id, name, email, age as 'age: u8'
            FROM users
            WHERE age > @min_age
            AND name LIKE @name_pattern
            AND created_at > @start_date
            AND (status = @active_status OR priority = @high_priority)
            ORDER BY @sort_column
            LIMIT @page_size OFFSET @offset_value
        "#;
    let all_params = names(complex_sql);
    let expected_params = vec![
        "min_age",
        "name_pattern",
        "start_date",
        "active_status",
        "high_priority",
        "sort_column",
        "page_size",
        "offset_value",
    ];
    assert_eq!(all_params, expected_params);
    assert_eq!(all_params.len(), 8);
}

#[test]
fn test_named_param_regex_performance() {
    let large_sql = (0..100)
        .map(|i| format!("SELECT * FROM table{} WHERE col = @param{}", i, i))
        .collect::<Vec<_>>()
        .join(" UNION ALL ");

    let start = Instant::now();
    let matches = names(&large_sql);
    let duration = start.elapsed();

    assert_eq!(matches.len(), 100);
    assert!(duration.as_millis() < 100, "Regex should be fast for large input: {:?}", duration);

    let malicious_input = format!("@{}", "a".repeat(10000));
    let start = Instant::now();
    let _result = is_match(&malicious_input);
    let duration = start.elapsed();
    assert!(duration.as_millis() < 50, "Should reject long input quickly: {:?}", duration);
}

#[test]
fn test_named_param_regex_edge_cases_that_should_fail() {
    let email_sql = "SELECT * FROM users WHERE email = 'user@example.com'";
    assert_eq!(names(email_sql).len(), 0, "Should not match email addresses");

    let double_at = "SELECT @@version";
    assert_eq!(names(double_at).len(), 0, "Should not match @@version due to exclusion");

    let start_param = "@param1 AND @param2";
    assert_eq!(names(start_param).len(), 2, "Should match both parameters");

    let no_match_after_alnum = "email@param AND (@param)";
    assert_eq!(names(no_match_after_alnum), vec!["param"], "Should only match @param in parentheses");

    let complex_edge_case = r#"
            UPDATE users SET
                email = 'admin@company.com',
                name = @user_name
            WHERE id = @user_id
            AND created_at > '@timestamp_format'
            AND status NOT IN ('deleted@archive.com', 'suspended')
        "#;
    assert_eq!(names(complex_edge_case), vec!["user_name", "user_id"], "Should only capture real parameters");

    let numeric_start = "SELECT * FROM table@123 WHERE id = @valid_param";
    assert_eq!(names(numeric_start).len(), 1, "Should only match valid parameter");

    let url_sql = "SELECT * FROM posts WHERE url = 'https://site@subdomain.com/path' AND author = @author";
    assert_eq!(names(url_sql), vec!["author"], "Should not match @ in URL");
}

#[test]
fn test_named_param_regex_stress_edge_cases() {
    let many_ats = "@@@@param";
    assert_eq!(names(many_ats).len(), 0, "Should not match due to @ exclusion");

    let special_chars = "(@param) [@param] {@param} <@param> '@param' \"@param\"";
    assert_eq!(names(special_chars).len(), 5, "Should match @param but not inside quotes");

    let long_param_name = format!("@{}", "a".repeat(100));
    let sql_with_long_param = format!("SELECT * FROM table WHERE col = {}", long_param_name);
    assert!(is_match(&sql_with_long_param), "Should match long parameter names");

    let mixed_sql = r#"
            SELECT
                u.email as 'user@domain.com',
                p.title,
                @dynamic_column
            FROM users u
            JOIN posts p ON u.id = p.user_id
            WHERE u.status = @status
            AND p.created_at > @start_date
            AND u.email != 'test@example.org'
            ORDER BY @sort_column
        "#;
    assert_eq!(names(mixed_sql), vec!["dynamic_column", "status", "start_date", "sort_column"]);
}

#[test]
fn test_convert_named_to_positional_in_sql() {
    let parameters = test_parameters();

    let sql = "SELECT * FROM users WHERE name = @name AND age = @age";
    let result = DmlParser::convert_named_to_positional_in_sql(sql, &parameters, Database::Postgres).unwrap();
    assert_eq!(result, "SELECT * FROM users WHERE name = $1 AND age = $2", "Should convert named params to numbered placeholders");

    let sql_no_params = "SELECT * FROM users";
    let result_no_params =
        DmlParser::convert_named_to_positional_in_sql(sql_no_params, &parameters, Database::Postgres).unwrap();
    assert_eq!(result_no_params, sql_no_params, "Should not modify SQL without named params");

    let sql_complex = "INSERT INTO users (name, age) VALUES (@name, @age)";
    let result_complex =
        DmlParser::convert_named_to_positional_in_sql(sql_complex, &parameters, Database::Postgres).unwrap();
    assert_eq!(result_complex, "INSERT INTO users (name, age) VALUES ($1, $2)", "Should handle complex SQL formatting");

    let sql_duplicate = "UPDATE users SET name = @name WHERE old_name = @name";
    let result_duplicate =
        DmlParser::convert_named_to_positional_in_sql(sql_duplicate, &parameters, Database::Postgres).unwrap();
    assert_eq!(result_duplicate, "UPDATE users SET name = $1 WHERE old_name = $1", "Should handle duplicate parameter references");

    let sql_unknown = "SELECT * FROM users WHERE unknown = @unknown";
    let result_unknown = DmlParser::convert_named_to_positional_in_sql(sql_unknown, &parameters, Database::Postgres);
    assert!(result_unknown.is_err(), "Should error on unknown parameters");
    let error_msg = result_unknown.unwrap_err().to_string();
    assert!(error_msg.contains("Unknown named parameters"), "Error should mention unknown parameters");
    assert!(error_msg.contains("unknown"), "Error should mention the specific unknown parameter");
}

#[test]
fn test_convert_named_to_positional_in_sql_for_mysql() {
    let parameters = test_parameters();

    let sql = "SELECT * FROM users WHERE name = @name AND age = @age";
    let result = DmlParser::convert_named_to_positional_in_sql(sql, &parameters, Database::MySql).unwrap();
    assert_eq!(result, "SELECT * FROM users WHERE name = ? AND age = ?", "Should convert named params to ? placeholders for MySQL");

    let sql_no_params = "SELECT * FROM users";
    let result_no_params =
        DmlParser::convert_named_to_positional_in_sql(sql_no_params, &parameters, Database::MySql).unwrap();
    assert_eq!(result_no_params, sql_no_params, "Should not modify SQL without named params");

    let sql_complex = "INSERT INTO users (name, age) VALUES (@name, @age)";
    let result_complex =
        DmlParser::convert_named_to_positional_in_sql(sql_complex, &parameters, Database::MySql).unwrap();
    assert_eq!(result_complex, "INSERT INTO users (name, age) VALUES (?, ?)", "Should handle complex SQL formatting with ? placeholders");

    let sql_duplicate = "UPDATE users SET name = @name WHERE old_name = @name";
    let result_duplicate =
        DmlParser::convert_named_to_positional_in_sql(sql_duplicate, &parameters, Database::MySql).unwrap();
    assert_eq!(result_duplicate, "UPDATE users SET name = ? WHERE old_name = ?", "Should reuse the same ? for duplicate parameter references");

    let sql_unknown = "SELECT * FROM users WHERE unknown = @unknown";
    let result_unknown = DmlParser::convert_named_to_positional_in_sql(sql_unknown, &parameters, Database::MySql);
    assert!(result_unknown.is_err(), "Should error on unknown parameters");
    let error_msg = result_unknown.unwrap_err().to_string();
    assert!(error_msg.contains("Unknown named parameters"), "Error should mention unknown parameters");
    assert!(error_msg.contains("unknown"), "Error should mention the specific unknown parameter");
}

#[test]
fn unknown_parameter_message_lists_unknown_and_available_names() {
    let parameters = test_parameters();
    let err = DmlParser::convert_named_to_positional_in_sql(
        "SELECT * FROM t WHERE a = @x AND b = @y AND c = @x AND d = @name",
        &parameters,
        Database::Postgres,
    )
    .unwrap_err();
    assert_eq!(
        err.to_string(),
        "Unknown named parameters in SQL: [x, y]. Available parameters: [name, age]"
    );
}

#[test]
fn sqlite_uses_numbered_placeholders_and_large_numbers() {
    let order: Vec<String> = (1..=12).map(|i| format!("p{}", i)).collect();
    let result = convert_named_to_positional("v = @p12 OR w = @p3", &order, Database::Sqlite).unwrap();
    assert_eq!(result, "v = $12 OR w = $3");
}

#[test]
fn no_parameters_to_number_leaves_sql_unchanged() {
    let sql = "SELECT * FROM t WHERE a = @a";
    assert_eq!(convert_named_to_positional(sql, &vec![], Database::Postgres).unwrap(), sql);
}
