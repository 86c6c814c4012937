use sqlx_data::dml::ArgTarget;
use sqlx_data::repo::{RepoArg, RepoArgValue, RepoProcessor};
use sqlx_data::scope::{ScopeManager, ScopeTarget};
use sqlx_data::scope_attrs::ScopeMeta;

fn pair(k: &str, v: &str) -> ScopeMeta {
    ScopeMeta::Pair(k.to_string(), v.to_string())
}

fn instrument(v: RepoArgValue) -> RepoArg {
    RepoArg::Assign(ArgTarget::Ident("instrument".to_string()), v)
}

#[test]
fn scope_attribute_with_default_and_given_target() {
    let mut manager = ScopeManager::new();
    manager.parse_scope_attribute(&vec![pair("active", "active = true")]).unwrap();
    manager.parse_scope_attribute(&vec![pair("recent", "created_at DESC"), pair("target", "ORDER_BY")]).unwrap();
    let scopes = manager.get_active_scopes();
    assert_eq!(scopes.len(), 2);
    assert_eq!(scopes[0].name, "active");
    assert_eq!(scopes[0].target, ScopeTarget::Where);
    assert_eq!(scopes[1].name, "recent");
    assert_eq!(scopes[1].target, ScopeTarget::OrderBy);
}

#[test]
fn scope_attribute_target_may_come_first_and_last_name_wins() {
    let mut manager = ScopeManager::new();
    manager
        .parse_scope_attribute(&vec![pair("target", "select"), pair("a", "x"), pair("b", "upper(name) AS n")])
        .unwrap();
    let scopes = manager.get_active_scopes();
    assert_eq!(scopes.len(), 1);
    assert_eq!(scopes[0].name, "b");
    assert_eq!(scopes[0].sql, "upper(name) AS n");
    assert_eq!(scopes[0].target, ScopeTarget::Select);
}

#[test]
fn scope_attribute_errors_leave_the_scopes_unchanged() {
    let mut manager = ScopeManager::new();
    let cases = vec![
        (vec![pair("target", "where")], "Scope name is required"),
        (vec![ScopeMeta::NotIdent], "Expected a scope name or target"),
        (vec![pair("a", "x"), ScopeMeta::NoEquals], "Expected `key = \"value\"` format"),
        (vec![ScopeMeta::Unreadable("expected string literal".to_string())], "expected string literal"),
        (
            vec![pair("a", "x"), pair("target", "nowhere")],
            "Invalid scope target: 'nowhere'. Valid targets: select, from, join, where, group_by, having, order_by",
        ),
    ];
    for (items, message) in cases {
        assert_eq!(manager.parse_scope_attribute(&items).unwrap_err().message, message);
    }
    assert!(!manager.has_active_scopes());
    assert!(manager.get_scope_names().is_empty());
}

#[test]
fn scope_ignore_attribute_keeps_names_before_an_error() {
    let mut manager = ScopeManager::new();
    manager.parse_scope_ignore_attribute(&vec![Some("a".to_string()), Some("b".to_string())]).unwrap();
    assert_eq!(manager.get_ignored_scope_names(), vec!["a".to_string(), "b".to_string()]);
    let err = manager.parse_scope_ignore_attribute(&vec![Some("c".to_string()), None, Some("d".to_string())]).unwrap_err();
    assert_eq!(err.message, "Expected scope name to ignore");
    assert_eq!(manager.get_ignored_scope_names(), vec!["a".to_string(), "b".to_string(), "c".to_string()]);
}

#[test]
fn scopes_from_trait_and_method_attributes() {
    let trait_attrs = vec![vec![pair("active", "active = true")], vec![pair("tenant", "tenant_id = 1")]];
    let method_attrs = vec![vec![Some("active".to_string())]];
    let manager = ScopeManager::parse_from_attributes(&trait_attrs, &method_attrs).unwrap();
    assert_eq!(manager.get_scope_names(), vec!["active".to_string(), "tenant".to_string()]);
    let active = manager.get_active_scopes();
    assert_eq!(active.len(), 1);
    assert_eq!(active[0].name, "tenant");

    let bad = vec![vec![pair("target", "having")]];
    assert_eq!(ScopeManager::parse_from_attributes(&bad, &vec![]).unwrap_err().message, "Scope name is required");
}

#[test]
fn carried_scopes_come_from_the_first_string_value() {
    let mut manager = ScopeManager::new();
    manager.add_scope("active".to_string(), "active = true".to_string(), ScopeTarget::Where);
    let text = manager.serialize_for_injection();
    let read = ScopeManager::extract_from_method_attributes(&vec![None, Some(text.clone()), Some("scopes:x".to_string())])
        .unwrap();
    assert_eq!(read.serialize_for_injection(), text);
    let none = ScopeManager::extract_from_method_attributes(&vec![None]).unwrap();
    assert!(!none.has_active_scopes());
}

#[test]
fn instrument_flag_of_the_repository() {
    assert_eq!(RepoProcessor::parse_instrument_flag(&vec![]).unwrap(), false);
    assert_eq!(RepoProcessor::parse_instrument_flag(&vec![instrument(RepoArgValue::Bool(true))]).unwrap(), true);
    let others_first = vec![
        RepoArg::Other,
        RepoArg::Assign(ArgTarget::Ident("name".to_string()), RepoArgValue::NotLit),
        RepoArg::Assign(ArgTarget::OtherPath, RepoArgValue::OtherLit),
        instrument(RepoArgValue::Bool(true)),
        instrument(RepoArgValue::Bool(false)),
    ];
    assert_eq!(RepoProcessor::parse_instrument_flag(&others_first).unwrap(), true);
    assert_eq!(
        RepoProcessor::parse_instrument_flag(&vec![RepoArg::Assign(ArgTarget::NotPath, RepoArgValue::Bool(true))])
            .unwrap_err()
            .message,
        "Invalid parameter name"
    );
    assert_eq!(
        RepoProcessor::parse_instrument_flag(&vec![instrument(RepoArgValue::NotLit)]).unwrap_err().message,
        "instrument parameter must be a boolean literal"
    );
    assert_eq!(
        RepoProcessor::parse_instrument_flag(&vec![instrument(RepoArgValue::OtherLit)]).unwrap_err().message,
        "instrument parameter must be true or false"
    );
}

#[test]
fn methods_carry_the_scopes_they_do_not_ignore() {
    let trait_scopes = ScopeManager::parse_from_attributes(&vec![vec![pair("active", "active = true")]], &vec![]).unwrap();

    let plain = RepoProcessor::process_dml_method(&trait_scopes, &vec![], true).unwrap();
    assert!(plain.trait_instrument);
    let data = plain.scope_data.unwrap();
    assert_eq!(data, trait_scopes.serialize_for_injection());
    assert!(data.contains("active"));

    let ignoring = RepoProcessor::process_dml_method(&trait_scopes, &vec![vec![Some("active".to_string())]], false).unwrap();
    assert!(!ignoring.trait_instrument);
    assert_eq!(ignoring.scope_data, None);

    let bad = RepoProcessor::process_dml_method(&trait_scopes, &vec![vec![None]], false).unwrap_err();
    assert_eq!(bad.message, "Expected scope name to ignore");
}
