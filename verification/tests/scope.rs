use sqlx_data::database::Database;
use sqlx_data::scope::{ScopeDefinition, ScopeManager, ScopeTarget};

fn find<'a>(scopes: &[&'a ScopeDefinition], name: &str) -> &'a ScopeDefinition {
    scopes.iter().find(|s| s.name == name).copied().expect("scope present")
}

#[test]
fn test_add_scope_with_default_target() {
    let mut manager = ScopeManager::new();
    manager.add_scope("tenantable".to_string(), "customer_id = $1".to_string(), ScopeTarget::Where);

    let scope_names = manager.get_scope_names();
    assert!(scope_names.contains(&"tenantable".to_string()));

    let active_scopes = manager.get_active_scopes();
    assert_eq!(find(&active_scopes, "tenantable").target, ScopeTarget::Where);
    assert_eq!(find(&active_scopes, "tenantable").sql, "customer_id = $1");
}

#[test]
fn test_add_scope_with_custom_target() {
    let mut manager = ScopeManager::new();
    manager.add_scope(
        "mask_email".to_string(),
        "REPLACE(email, '@', '[at]') AS masked_email".to_string(),
        ScopeTarget::Select,
    );

    let active_scopes = manager.get_active_scopes();
    assert_eq!(find(&active_scopes, "mask_email").target, ScopeTarget::Select);
    assert_eq!(find(&active_scopes, "mask_email").sql, "REPLACE(email, '@', '[at]') AS masked_email");
}

#[test]
fn test_scope_target_from_string() {
    assert_eq!(ScopeTarget::from_string("select").unwrap(), ScopeTarget::Select);
    assert_eq!(ScopeTarget::from_string("where").unwrap(), ScopeTarget::Where);
    assert_eq!(ScopeTarget::from_string("join").unwrap(), ScopeTarget::Join);
    assert_eq!(ScopeTarget::from_string("order_by").unwrap(), ScopeTarget::OrderBy);
    assert_eq!(ScopeTarget::from_string("group_by").unwrap(), ScopeTarget::GroupBy);

    assert!(ScopeTarget::from_string("invalid").is_err());
}

#[test]
fn test_scope_ignore() {
    let mut manager = ScopeManager::new();
    manager.add_scope("tenantable".to_string(), "customer_id = $1".to_string(), ScopeTarget::Where);
    manager.add_scope("versioned".to_string(), "deleted_at IS NULL".to_string(), ScopeTarget::Where);
    manager.add_ignored_scope("versioned".to_string());

    let active_scopes = manager.get_active_scopes();
    assert_eq!(active_scopes.len(), 1);
    assert!(active_scopes.iter().any(|s| s.name == "tenantable"));
    assert!(!active_scopes.iter().any(|s| s.name == "versioned"));

    let ignored = manager.get_ignored_scope_names();
    assert!(ignored.contains(&"versioned".to_string()));
}

#[test]
fn test_scopes_grouped_by_target() {
    let mut manager = ScopeManager::new();
    manager.add_scope("tenantable".to_string(), "customer_id = $1".to_string(), ScopeTarget::Where);
    manager.add_scope("ownable".to_string(), "user_id = $1".to_string(), ScopeTarget::Where);
    manager.add_scope(
        "mask_email".to_string(),
        "REPLACE(email, '@', '[at]') AS masked_email".to_string(),
        ScopeTarget::Select,
    );

    let grouped = manager.get_scopes_by_target();
    let group = |t: ScopeTarget| grouped.iter().find(|(target, _)| *target == t).map(|(_, g)| g.clone()).unwrap();

    assert_eq!(group(ScopeTarget::Where).len(), 2);
    assert_eq!(group(ScopeTarget::Select).len(), 1);

    let where_scopes: Vec<&str> = group(ScopeTarget::Where).iter().map(|s| s.name.as_str()).collect();
    assert!(where_scopes.contains(&"tenantable"));
    assert!(where_scopes.contains(&"ownable"));
}

#[test]
fn test_serialization() {
    let mut manager = ScopeManager::new();
    manager.add_scope("tenantable".to_string(), "scope_tenantable".to_string(), ScopeTarget::Where);
    manager.add_scope("mask_email".to_string(), "scope_mask_email".to_string(), ScopeTarget::Select);
    manager.add_ignored_scope("versioned".to_string());

    let serialized = manager.serialize_for_injection();
    assert!(serialized.contains("scopes:"));
    assert!(serialized.contains("tenantable=scope_tenantable:where"));
    assert!(serialized.contains("mask_email=scope_mask_email:select"));
    assert!(serialized.contains("ignore:versioned"));
}

#[test]
fn test_deserialization() {
    let serialized = "scopes:tenantable=scope_tenantable:where;mask_email=scope_mask_email:select|ignore:versioned";
    let manager = ScopeManager::deserialize_from_injection(serialized).unwrap();

    let scope_names = manager.get_scope_names();
    assert!(scope_names.contains(&"tenantable".to_string()));
    assert!(scope_names.contains(&"mask_email".to_string()));

    let all = manager.get_scope_names();
    assert_eq!(all, vec!["tenantable".to_string(), "mask_email".to_string()]);

    let active_scopes = manager.get_active_scopes();
    assert_eq!(find(&active_scopes, "tenantable").target, ScopeTarget::Where);
    assert_eq!(find(&active_scopes, "mask_email").target, ScopeTarget::Select);

    let ignored = manager.get_ignored_scope_names();
    assert!(ignored.contains(&"versioned".to_string()));
}

#[test]
fn serialization_is_exact_and_escapes() {
    let mut manager = ScopeManager::new();
    manager.add_scope("q".to_string(), "a = \"x\"; b".to_string(), ScopeTarget::GroupBy);
    manager.add_ignored_scope("v".to_string());
    manager.add_ignored_scope("w".to_string());
    assert_eq!(manager.serialize_for_injection(), "scopes:q=a = \\\"x\\\"\\; b:group_by|ignore:v,w");
    assert_eq!(ScopeManager::new().serialize_for_injection(), "");
}

#[test]
fn round_trip_of_a_text_form() {
    let mut manager = ScopeManager::new();
    manager.add_scope("tenant".to_string(), "tenant_id = 'a:b' AND x = \"y\"".to_string(), ScopeTarget::Where);
    manager.add_scope("recent".to_string(), "created_at DESC".to_string(), ScopeTarget::OrderBy);
    manager.add_ignored_scope("deleted".to_string());
    let text = manager.serialize_for_injection();
    let back = ScopeManager::deserialize_from_injection(&text).unwrap();
    assert_eq!(back.get_scope_names(), manager.get_scope_names());
    assert_eq!(back.get_ignored_scope_names(), manager.get_ignored_scope_names());
    let scopes = back.get_active_scopes();
    assert_eq!(find(&scopes, "tenant").sql, "tenant_id = 'a:b' AND x = \"y\"");
    assert_eq!(find(&scopes, "recent").target, ScopeTarget::OrderBy);
}

#[test]
fn adding_a_scope_again_replaces_it() {
    let mut manager = ScopeManager::new();
    manager.add_scope("a".to_string(), "x = 1".to_string(), ScopeTarget::Where);
    manager.add_scope("b".to_string(), "y".to_string(), ScopeTarget::Select);
    manager.add_scope("a".to_string(), "x = 2".to_string(), ScopeTarget::Having);
    assert_eq!(manager.get_scope_names(), vec!["a".to_string(), "b".to_string()]);
    let scopes = manager.get_active_scopes();
    assert_eq!(find(&scopes, "a").sql, "x = 2");
    assert_eq!(find(&scopes, "a").target, ScopeTarget::Having);
    assert!(manager.has_active_scopes());
    manager.add_ignored_scope("a".to_string());
    manager.add_ignored_scope("b".to_string());
    assert!(!manager.has_active_scopes());
}

#[test]
fn deserialization_errors() {
    let err = ScopeManager::deserialize_from_injection("scopes").unwrap_err();
    assert_eq!(err.to_string(), "Invalid scope format in injection: 'scopes'");
    let err = ScopeManager::deserialize_from_injection("other:x").unwrap_err();
    assert_eq!(err.to_string(), "Invalid scope prefix in injection: 'other'");
    let err = ScopeManager::deserialize_from_injection("scopes:a=b").unwrap_err();
    assert_eq!(err.to_string(), "Invalid scope format, missing target: 'a=b'");
    let err = ScopeManager::deserialize_from_injection("scopes:a=b:nowhere").unwrap_err();
    assert_eq!(
        err.to_string(),
        "Invalid scope target: 'nowhere'. Valid targets: select, from, join, where, group_by, having, order_by"
    );
    let empty = ScopeManager::deserialize_from_injection("   ").unwrap();
    assert!(empty.get_scope_names().is_empty());
    let skipped = ScopeManager::deserialize_from_injection("scopes:novalue|ignore: a , ,b").unwrap();
    assert!(skipped.get_scope_names().is_empty());
    assert_eq!(skipped.get_ignored_scope_names(), vec!["a".to_string(), "b".to_string()]);
}

#[test]
fn targets_ignore_ascii_case() {
    assert_eq!(ScopeTarget::from_string("SELECT").unwrap(), ScopeTarget::Select);
    assert_eq!(ScopeTarget::from_string("GroupBy").unwrap(), ScopeTarget::GroupBy);
    assert_eq!(ScopeTarget::from_string("orderby").unwrap(), ScopeTarget::OrderBy);
    assert_eq!(ScopeTarget::from_string("From").unwrap(), ScopeTarget::From);
    assert_eq!(ScopeTarget::from_string("HAVING").unwrap(), ScopeTarget::Having);
    assert_eq!(ScopeTarget::Having.as_str(), "having");
}

fn apply(manager: &ScopeManager, sql: &str) -> String {
    manager.apply_scopes_to_sql(sql, Database::Postgres).unwrap()
}

#[test]
fn test_apply_scopes_to_sql() {
    let mut scope_manager = ScopeManager::new();
    scope_manager.add_scope("tenantable".to_string(), "customer_id = $1".to_string(), ScopeTarget::Where);
    scope_manager.add_scope(
        "mask_email".to_string(),
        "REPLACE(email, '@', '[at]') AS masked_email".to_string(),
        ScopeTarget::Select,
    );

    let original_sql = "SELECT * FROM users WHERE age > 18";
    let result = apply(&scope_manager, original_sql);

    assert!(result.contains("age > 18"));
    assert!(result.contains("customer_id = $1"));
    assert!(result.contains("AND"));
    assert!(result.contains("REPLACE(email, '@', '[at]') AS masked_email"));
}

#[test]
fn test_apply_scopes_with_sql_parser() {
    let mut scope_manager = ScopeManager::new();
    scope_manager.add_scope("age_filter".to_string(), "age > 18".to_string(), ScopeTarget::Where);
    scope_manager.add_scope("status_filter".to_string(), "status = 'active'".to_string(), ScopeTarget::Where);
    scope_manager.add_scope("name_order".to_string(), "name ASC".to_string(), ScopeTarget::OrderBy);

    let original_sql = "SELECT id, name FROM users WHERE age > 0";
    let result = apply(&scope_manager, original_sql);

    assert!(result.contains("age > 0"));
    assert!(result.contains("age > 18"));
    assert!(result.contains("status = 'active'"));
    assert!(result.contains("AND"));
    assert!(result.contains("ORDER BY"));
    assert!(result.contains("name ASC"));
}

#[test]
fn test_apply_where_scopes_only() {
    let mut scope_manager = ScopeManager::new();
    scope_manager.add_scope("tenant_filter".to_string(), "tenant_id = 123".to_string(), ScopeTarget::Where);
    scope_manager.add_scope("active_filter".to_string(), "active = true".to_string(), ScopeTarget::Where);

    let result = apply(&scope_manager, "SELECT * FROM users");

    assert!(result.contains("WHERE"));
    assert!(result.contains("tenant_id = 123"));
    assert!(result.contains("active = true"));
    assert!(result.contains("AND"));
}

#[test]
fn test_apply_order_by_scopes_only() {
    let mut scope_manager = ScopeManager::new();
    scope_manager.add_scope("created_order".to_string(), "created_at DESC".to_string(), ScopeTarget::OrderBy);

    let result = apply(&scope_manager, "SELECT id, name FROM users WHERE id > 0");

    assert!(result.contains("ORDER BY"));
    assert!(result.contains("created_at DESC"));
    assert!(result.contains("WHERE id > 0"));
}

#[test]
fn test_apply_no_scopes() {
    let scope_manager = ScopeManager::new();
    let original_sql = "SELECT id, name FROM users WHERE id > 0";
    let result = apply(&scope_manager, original_sql);
    assert_eq!(result, original_sql);
}

#[test]
fn test_apply_group_by_scopes() {
    let mut scope_manager = ScopeManager::new();
    scope_manager.add_scope("group_department".to_string(), "department".to_string(), ScopeTarget::GroupBy);
    scope_manager.add_scope("group_status".to_string(), "status".to_string(), ScopeTarget::GroupBy);

    let result = apply(&scope_manager, "SELECT department, COUNT(*) FROM employees");

    assert!(result.contains("GROUP BY"));
    assert!(result.contains("department"));
    assert!(result.contains("status"));
}

#[test]
fn test_apply_having_scopes() {
    let mut scope_manager = ScopeManager::new();
    scope_manager.add_scope("count_filter".to_string(), "COUNT(*) > 5".to_string(), ScopeTarget::Having);
    scope_manager.add_scope("avg_filter".to_string(), "AVG(salary) > 50000".to_string(), ScopeTarget::Having);

    let result = apply(&scope_manager, "SELECT department, COUNT(*) FROM employees GROUP BY department");

    assert!(result.contains("HAVING"));
    assert!(result.contains("COUNT(*) > 5"));
    assert!(result.contains("AVG(salary) > 50000"));
    assert!(result.contains("AND"));
}

#[test]
fn test_apply_from_scopes() {
    let mut scope_manager = ScopeManager::new();
    scope_manager.add_scope("audit_table".to_string(), "audit_logs al".to_string(), ScopeTarget::From);

    let result = apply(&scope_manager, "SELECT * FROM users");

    assert!(result.contains("FROM users"));
    assert!(result.contains("audit_logs"));
}

#[test]
fn test_apply_join_scopes() {
    let mut scope_manager = ScopeManager::new();
    scope_manager.add_scope(
        "profile_join".to_string(),
        "LEFT JOIN profiles p ON u.id = p.user_id".to_string(),
        ScopeTarget::Join,
    );
    scope_manager.add_scope(
        "department_join".to_string(),
        "INNER JOIN departments d ON u.dept_id = d.id".to_string(),
        ScopeTarget::Join,
    );

    let result = apply(&scope_manager, "SELECT u.id, u.name FROM users u");

    assert!(result.contains("LEFT JOIN profiles"));
    assert!(result.contains("ON u.id = p.user_id"));
    assert!(result.contains("INNER JOIN departments"));
    assert!(result.contains("ON u.dept_id = d.id"));
}

#[test]
fn test_apply_complex_mixed_scopes() {
    let mut scope_manager = ScopeManager::new();
    scope_manager.add_scope("tenant_filter".to_string(), "tenant_id = 123".to_string(), ScopeTarget::Where);
    scope_manager.add_scope(
        "profile_join".to_string(),
        "LEFT JOIN profiles p ON u.id = p.user_id".to_string(),
        ScopeTarget::Join,
    );
    scope_manager.add_scope(
        "masked_email".to_string(),
        "REPLACE(u.email, '@', '[at]') AS masked_email".to_string(),
        ScopeTarget::Select,
    );
    scope_manager.add_scope("group_dept".to_string(), "department".to_string(), ScopeTarget::GroupBy);
    scope_manager.add_scope("count_having".to_string(), "COUNT(*) > 1".to_string(), ScopeTarget::Having);
    scope_manager.add_scope("created_order".to_string(), "created_at DESC".to_string(), ScopeTarget::OrderBy);

    let result = apply(&scope_manager, "SELECT u.id, u.name FROM users u WHERE u.active = 1");

    assert!(result.contains("tenant_id = 123"));
    assert!(result.contains("LEFT JOIN profiles"));
    assert!(result.contains("REPLACE(u.email, '@', '[at]')"));
    assert!(result.contains("GROUP BY"));
    assert!(result.contains("department"));
    assert!(result.contains("HAVING"));
    assert!(result.contains("COUNT(*) > 1"));
    assert!(result.contains("ORDER BY"));
    assert!(result.contains("created_at DESC"));
    assert!(result.contains("u.active = 1"));
}

#[test]
fn apply_scopes_exact_text_and_order() {
    let mut m = ScopeManager::new();
    m.add_scope("a".to_string(), "x = 1".to_string(), ScopeTarget::Where);
    m.add_scope("b".to_string(), "y = 2".to_string(), ScopeTarget::Where);
    let result = apply(&m, "SELECT id FROM t WHERE z = 3");
    assert_eq!(result, "SELECT id FROM t WHERE z = 3 AND x = 1 AND y = 2");
}

#[test]
fn apply_scopes_errors() {
    let mut m = ScopeManager::new();
    m.add_scope("a".to_string(), "x = 1".to_string(), ScopeTarget::Where);
    let not_select = m.apply_scopes_to_sql("DELETE FROM t", Database::Postgres).unwrap_err();
    assert_eq!(not_select.message, "Only SELECT queries support scope application");
    let empty = m.apply_scopes_to_sql("", Database::Postgres).unwrap_err();
    assert_eq!(empty.message, "Failed to parse SQL");
    assert!(m.apply_scopes_to_sql("SELEC nonsense", Database::Postgres).is_err());

    let mut bad = ScopeManager::new();
    bad.add_scope("broken".to_string(), "".to_string(), ScopeTarget::Select);
    assert!(bad.apply_scopes_to_sql("SELECT id FROM t", Database::Postgres).is_err());

    // An ignored scope is not applied, so nothing changes.
    let mut ignored = ScopeManager::new();
    ignored.add_scope("a".to_string(), "x = 1".to_string(), ScopeTarget::Where);
    ignored.add_ignored_scope("a".to_string());
    assert_eq!(apply(&ignored, "SELECT  id FROM t"), "SELECT  id FROM t");
}

#[test]
fn group_sizes_add_up_to_the_active_scopes() {
    let mut manager = ScopeManager::new();
    manager.add_scope("a".to_string(), "x = 1".to_string(), ScopeTarget::Where);
    manager.add_scope("b".to_string(), "y = 2".to_string(), ScopeTarget::Where);
    manager.add_scope("c".to_string(), "z AS w".to_string(), ScopeTarget::Select);
    manager.add_scope("d".to_string(), "name".to_string(), ScopeTarget::OrderBy);
    manager.add_ignored_scope("d".to_string());
    let grouped = manager.get_scopes_by_target();
    let total: usize = grouped.iter().map(|(_, g)| g.len()).sum();
    assert_eq!(total, manager.get_active_scopes().len());
    assert_eq!(total, 3);
    assert!(grouped.iter().all(|(t, _)| *t != ScopeTarget::OrderBy));
}

#[test]
fn built_manager_reads_back_from_its_text_form() {
    let mut m = ScopeManager::new();
    m.add_scope("tenant".to_string(), "customer_id = $1".to_string(), ScopeTarget::Where);
    m.add_scope("by_name".to_string(), "name".to_string(), ScopeTarget::OrderBy);
    m.add_scope("tenant".to_string(), "org_id = 2".to_string(), ScopeTarget::Where);
    m.add_ignored_scope("by_name".to_string());
    let back = ScopeManager::deserialize_from_injection(&m.serialize_for_injection()).unwrap();
    assert_eq!(back.get_scope_names(), m.get_scope_names());
    assert_eq!(back.get_ignored_scope_names(), m.get_ignored_scope_names());
    assert_eq!(back.serialize_for_injection(), m.serialize_for_injection());
}
