use std::time::Instant;
use sqlx_data::sqlx_syntax::{
    clean_sqlx_cast_syntax_for_runtime, extract_column_name, has_explicit_sqlx_type, sqlx_cast_is_match,
    try_clean_sqlx_cast_syntax,
};

fn is_match(sql: &str) -> bool {
    sqlx_cast_is_match(sql).unwrap()
}

#[test]
fn test_extract_column_name() {
    assert_eq!(extract_column_name("email_length: i64"), "email_length");
    assert_eq!(extract_column_name("name: String"), "name");
    assert_eq!(extract_column_name("age: u8"), "age");
    assert_eq!(extract_column_name("birth_year: u16"), "birth_year");

    assert_eq!(extract_column_name("email_length!: i64"), "email_length");
    assert_eq!(extract_column_name("name!: String"), "name");

    assert_eq!(extract_column_name("email_length"), "email_length");
    assert_eq!(extract_column_name("name"), "name");
    assert_eq!(extract_column_name("age"), "age");

    assert_eq!(extract_column_name("email_length : i64"), "email_length");
    assert_eq!(extract_column_name(" name : String "), "name");
}

#[test]
fn test_clean_sqlx_cast_syntax() {
    assert_eq!(
        clean_sqlx_cast_syntax_for_runtime("SELECT id as 'id: i64', name as 'name: String'"),
        "SELECT id as id, name as name"
    );
    assert_eq!(
        clean_sqlx_cast_syntax_for_runtime("SELECT id as \"id: i64\", name as \"name: String\""),
        "SELECT id as id, name as name"
    );
    assert_eq!(
        clean_sqlx_cast_syntax_for_runtime("SELECT id as `id: i64`, name as `name: String`"),
        "SELECT id as id, name as name"
    );
    assert_eq!(
        clean_sqlx_cast_syntax_for_runtime("SELECT id as 'id!: i64', name as 'name!: String'"),
        "SELECT id as id, name as name"
    );
    assert_eq!(
        clean_sqlx_cast_syntax_for_runtime("SELECT id as 'id?: Option<i64>', name as 'name?: Option<String>'"),
        "SELECT id as id, name as name"
    );
    assert_eq!(
        clean_sqlx_cast_syntax_for_runtime("SELECT id as 'id: i64', name as \"name: String\", age as `age: u32`"),
        "SELECT id as id, name as name, age as age"
    );
    assert_eq!(
        clean_sqlx_cast_syntax_for_runtime("SELECT COUNT(*) as 'total_count', AVG(age) as 'average_age'"),
        "SELECT COUNT(*) as 'total_count', AVG(age) as 'average_age'"
    );
    assert_eq!(
        clean_sqlx_cast_syntax_for_runtime("SELECT id as 'id: i64', COUNT(*) as 'total', name as \"name: String\""),
        "SELECT id as id, COUNT(*) as 'total', name as name"
    );
    assert_eq!(
        clean_sqlx_cast_syntax_for_runtime("SELECT id as 'id   :   i64', name as 'name:String'"),
        "SELECT id as id, name as name"
    );
    assert_eq!(clean_sqlx_cast_syntax_for_runtime(""), "");
    assert_eq!(
        clean_sqlx_cast_syntax_for_runtime("SELECT id as 'id: Id!', name as 'name: String'"),
        "SELECT id as id, name as name"
    );
    assert_eq!(
        clean_sqlx_cast_syntax_for_runtime("SELECT created_at as 'created_at?: timestamptz', status as 'status!: StatusEnum'"),
        "SELECT created_at as created_at, status as status"
    );
    assert_eq!(
        clean_sqlx_cast_syntax_for_runtime("SELECT user_id as \"user_id!: Uuid\", score as \"score?: Option<f64>\""),
        "SELECT user_id as user_id, score as score"
    );
    assert_eq!(
        clean_sqlx_cast_syntax_for_runtime(
            "SELECT id as 'id!: Id', name, email, age as 'age: u8', birth_year as 'birth_year: u16' FROM users WHERE age BETWEEN $1 AND $2"
        ),
        "SELECT id as id, name, email, age as age, birth_year as birth_year FROM users WHERE age BETWEEN $1 AND $2"
    );
}

#[test]
fn test_sqlx_cast_regex_all_cases() {
    assert!(is_match("SELECT foo as 'col: String' FROM table"));
    assert!(is_match(r#"SELECT foo as "col: u32" FROM table"#));
    assert!(is_match("SELECT foo as `col: i64` FROM table"));

    assert!(is_match("SELECT foo as 'col!' FROM table"));
    assert!(is_match(r#"SELECT foo as "col!" FROM table"#));
    assert!(is_match("SELECT foo as `col!` FROM table"));

    assert!(is_match("SELECT foo as 'col?' FROM table"));
    assert!(is_match(r#"SELECT foo as "col?" FROM table"#));
    assert!(is_match("SELECT foo as `col?` FROM table"));

    assert!(is_match("SELECT foo as 'col!: String' FROM table"));
    assert!(is_match(r#"SELECT foo as "col!: u32" FROM table"#));
    assert!(is_match("SELECT foo as `col!: i64` FROM table"));

    assert!(is_match("SELECT foo as 'col?: String' FROM table"));
    assert!(is_match(r#"SELECT foo as "col?: u32" FROM table"#));
    assert!(is_match("SELECT foo as `col?: i64` FROM table"));

    assert!(!is_match("SELECT '10:30:59' FROM table"));
    assert!(!is_match("SELECT 'http://example.com' FROM table"));
    assert!(!is_match("SELECT foo as normal_alias FROM table"));
    assert!(!is_match("SELECT foo as 'normal_alias' FROM table"));
}

#[test]
fn test_sqlx_cast_replacement() {
    let sql = "SELECT LENGTH(name) as 'name_len: u8', email as 'email!' FROM users";
    let cleaned = try_clean_sqlx_cast_syntax(sql).unwrap();
    assert_eq!(cleaned, "SELECT LENGTH(name) as name_len, email as email FROM users");

    let sql2 = "SELECT COUNT(*) as 'count!: u32' FROM table";
    let cleaned2 = try_clean_sqlx_cast_syntax(sql2).unwrap();
    assert_eq!(cleaned2, "SELECT COUNT(*) as count FROM table");

    let sql3 = "SELECT id as 'id!', name as 'name?: String', age FROM users";
    let cleaned3 = try_clean_sqlx_cast_syntax(sql3).unwrap();
    assert_eq!(cleaned3, "SELECT id as id, name as name, age FROM users");
}

#[test]
fn test_sqlx_negative_cases() {
    assert!(!is_match("SELECT '10:30:59' FROM table"));
    assert!(!is_match("SELECT 'http://example.com:8080' FROM table"));
    assert!(!is_match("SELECT 'just_a_normal_alias' FROM table"));
    assert!(!is_match("SELECT ':invalid' FROM table"));
    assert!(!is_match("SELECT 'no.casting' FROM table"));
}

#[test]
fn test_redos_vulnerability() {
    let malicious_input1 = "'".to_string() + &"a".repeat(50) + ":";
    let malicious_input2 = "'".to_string() + &"a".repeat(100) + ":";
    let malicious_input3 = "'".to_string() + &"a".repeat(200) + ":";
    let malicious_input4 = "'".to_string() + &"a".repeat(50) + "!:";

    let start = Instant::now();
    let _result1 = is_match(&malicious_input1);
    let duration1 = start.elapsed();

    let start = Instant::now();
    let _result2 = is_match(&malicious_input2);
    let duration2 = start.elapsed();

    let start = Instant::now();
    let _result3 = is_match(&malicious_input3);
    let duration3 = start.elapsed();

    let start = Instant::now();
    let _result4 = is_match(&malicious_input4);
    let duration4 = start.elapsed();

    println!("ReDoS test results:");
    println!("Input 1 (50 chars + :): {:?}", duration1);
    println!("Input 2 (100 chars + :): {:?}", duration2);
    println!("Input 3 (200 chars + :): {:?}", duration3);
    println!("Input 4 (50 chars + !:): {:?}", duration4);

    if duration3.as_millis() > 1000 {
        panic!("ReDoS vulnerability confirmed! 200 chars took: {:?}", duration3);
    }
    assert!(duration1.as_millis() < 300, "ReDoS vulnerability detected! Duration: {:?}", duration1);
    assert!(duration4.as_millis() < 300, "Normal input should be fast! Duration: {:?}", duration4);
}

#[test]
fn test_has_explicit_sqlx_type() {
    assert!(has_explicit_sqlx_type("name: String"));
    assert!(has_explicit_sqlx_type("age!: u8"));
    assert!(has_explicit_sqlx_type("count : i64"));

    assert!(!has_explicit_sqlx_type("name"));
    assert!(!has_explicit_sqlx_type("age_value"));
    assert!(!has_explicit_sqlx_type("user_count"));
}

#[test]
fn clean_leaves_sql_without_overrides_unchanged() {
    let sql = "SELECT id, name FROM users WHERE note = 'a b:c'";
    assert_eq!(try_clean_sqlx_cast_syntax(sql).unwrap(), sql);
    assert_eq!(clean_sqlx_cast_syntax_for_runtime(sql), sql);
}

#[test]
fn clean_keeps_only_matching_quotes() {
    // A mismatched pair of quotes is not an override alias.
    let sql = "SELECT id as 'id: i64\" FROM t";
    assert_eq!(clean_sqlx_cast_syntax_for_runtime(sql), sql);
}

#[test]
fn extract_column_name_keeps_inner_bang() {
    assert_eq!(extract_column_name("a!b"), "a!b");
    assert_eq!(extract_column_name("col!!"), "col");
    assert_eq!(extract_column_name(""), "");
}
