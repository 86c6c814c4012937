use sqlx_data::sort::{Sort, SortDirection, SortingParams};
use sqlx_data::builder::{ParamsBuilder, SortBuilder};
use sqlx_data::cursor::{CursorDirection, CursorParams};
use sqlx_data::filter::{Filter, FilterOperator, FilterValue};

#[test]
fn test_safe_sort_builder_compile_time_safety() {
    let params = ParamsBuilder::new().sort().asc("id").desc("created_at").done().build();

    assert!(params.sort_by.is_some());
    let sort_by = params.sort_by.unwrap();
    assert_eq!(sort_by.sorts().len(), 2);
    assert_eq!(sort_by.sorts()[0].field, "id");
    assert!(sort_by.sorts()[0].is_asc());
    assert_eq!(sort_by.sorts()[1].field, "created_at");
    assert!(!sort_by.sorts()[1].is_asc());
}

#[test]
fn test_unsafe_sort_builder_with_runtime_validation() {
    let dynamic_field = "name".to_string();
    let invalid_field = "malicious_field".to_string();

    let params = ParamsBuilder::new()
        .sort()
        .with_allowed_columns(&["id", "name", "created_at", "age"])
        .asc_unsafe(&dynamic_field)
        .desc_unsafe(&invalid_field)
        .done()
        .build();

    assert!(params.sort_by.is_some());
    let sort_by = params.sort_by.unwrap();
    assert_eq!(sort_by.sorts().len(), 2);

    assert_eq!(sort_by.sorts()[0].field, "name");
    assert!(sort_by.sorts()[0].is_asc());
    assert_eq!(sort_by.sorts()[1].field, "malicious_field");
    assert!(!sort_by.sorts()[1].is_asc());

    assert!(sort_by.has_unsafe_fields());
    assert!(sort_by.validate_fields().is_err());
}

#[test]
fn test_standalone_sort_builder() {
    let safe_sort = SortBuilder::new().asc("id").desc("created_at").build();

    assert!(safe_sort.is_some());
    let sort_params = safe_sort.unwrap();
    assert_eq!(sort_params.sorts().len(), 2);

    let unsafe_sort = SortBuilder::new()
        .with_allowed_columns(&["id", "name"])
        .asc_unsafe(&"invalid_field".to_string())
        .build();

    assert!(unsafe_sort.is_some());
    let sort_params = unsafe_sort.unwrap();
    assert_eq!(sort_params.sorts().len(), 1);
    assert_eq!(sort_params.sorts()[0].field, "invalid_field");
    assert!(sort_params.has_unsafe_fields());
    assert!(sort_params.validate_fields().is_err());
}

#[test]
fn test_runtime_validation_success() {
    let params = ParamsBuilder::new()
        .sort()
        .with_allowed_columns(&["id", "name", "email"])
        .asc_unsafe(&"name".to_string())
        .desc_unsafe(&"id".to_string())
        .done()
        .build();

    let sort_by = params.sort_by.unwrap();
    assert!(sort_by.has_unsafe_fields());
    assert!(sort_by.validate_fields().is_ok());
}

#[test]
fn test_cursor_builder_pattern() {
    let cursor = CursorParams::new(FilterValue::text("alice"), CursorDirection::Before)
        .and_field(FilterValue::Int(25))
        .and_field(FilterValue::Float(99.5f64.to_bits()));

    assert_eq!(cursor.len(), 3);
    assert_eq!(cursor.direction.unwrap(), CursorDirection::Before);
}

#[test]
fn test_cursor_state_detection() {
    let cursor_with_data = CursorParams::new(FilterValue::Int(123), CursorDirection::After);
    assert!(!cursor_with_data.is_empty());
    assert!(!cursor_with_data.has_error());

    let cursor_with_error = CursorParams::with_error(CursorDirection::After, "decode failed");
    assert!(cursor_with_error.is_empty());
    assert!(cursor_with_error.has_error());
}

#[test]
fn test_cursor_values() {
    let cursor = CursorParams::new(FilterValue::Int(123), CursorDirection::After)
        .and_field(FilterValue::text("test"));

    assert_eq!(cursor.len(), 2);
    assert_eq!(cursor.values().len(), 2);
    assert_eq!(cursor.direction, Some(CursorDirection::After));
}

#[test]
fn test_error_workflow() {
    let cursor_ok = CursorParams::new(FilterValue::Int(123), CursorDirection::After);
    assert!(!cursor_ok.has_error());
    assert_eq!(cursor_ok.error(), None);

    let cursor_err = CursorParams::with_error(CursorDirection::Before, "Invalid token");
    assert!(cursor_err.has_error());
    assert_eq!(cursor_err.error(), Some("Invalid token"));
}

fn texts(items: &[&str]) -> FilterValue {
    FilterValue::from(items.iter().map(|s| FilterValue::text(s)).collect::<Vec<_>>())
}

#[test]
fn test_filter_value_from_primitives() {
    assert_eq!(FilterValue::text("hello"), FilterValue::String("hello".to_string()));
    assert_eq!(FilterValue::from("hello".to_string()), FilterValue::text("hello"));
    assert_eq!(FilterValue::from(42i64), FilterValue::Int(42));
    assert_eq!(FilterValue::from(42u32), FilterValue::UInt(42));
    assert_eq!(FilterValue::Float(1.5f64.to_bits()), FilterValue::Float(1.5f64.to_bits()));
    assert_eq!(FilterValue::from(true), FilterValue::Bool(true));
}

#[test]
fn test_filter_value_from_option() {
    assert_eq!(FilterValue::from(Some(FilterValue::text("value"))), FilterValue::text("value"));
    assert_eq!(FilterValue::from(None::<FilterValue>), FilterValue::Null);
    assert_eq!(FilterValue::from(Some(FilterValue::from(100i32))), FilterValue::Int(100));
    assert_eq!(FilterValue::from(None::<FilterValue>), FilterValue::Null);
}

#[test]
fn test_filter_value_from_vec() {
    let vec_str: Vec<String> = vec!["admin".to_string(), "user".to_string()];
    let expected = FilterValue::Array(vec![FilterValue::text("admin"), FilterValue::text("user")]);
    assert_eq!(
        FilterValue::from(vec_str.into_iter().map(FilterValue::from).collect::<Vec<_>>()),
        expected
    );

    let vec_int: Vec<i32> = vec![1, 2, 3];
    let expected_int = FilterValue::Array(vec![FilterValue::Int(1), FilterValue::Int(2), FilterValue::Int(3)]);
    assert_eq!(FilterValue::from(vec_int.into_iter().map(FilterValue::from).collect::<Vec<_>>()), expected_int);
}

#[test]
fn test_filter_value_from_slice() {
    let value = texts(&["admin", "moderator"]);
    let expected = FilterValue::Array(vec![FilterValue::text("admin"), FilterValue::text("moderator")]);
    assert_eq!(value, expected);

    let slice: &[i64] = &[10, 20, 30];
    let value = FilterValue::from(slice.iter().map(|v| FilterValue::from(*v)).collect::<Vec<_>>());
    let expected = FilterValue::Array(vec![FilterValue::Int(10), FilterValue::Int(20), FilterValue::Int(30)]);
    assert_eq!(value, expected);
}

#[test]
fn test_filter_new_with_vec_and_slice() {
    let filter1 = Filter::new("role", FilterOperator::In, texts(&["admin", "user"]));
    assert_eq!(filter1.field, "role");
    assert_eq!(filter1.operator, FilterOperator::In);
    assert_eq!(filter1.value, FilterValue::Array(vec![FilterValue::text("admin"), FilterValue::text("user")]));
    assert!(!filter1.not);

    let filter2 = Filter::new("status", FilterOperator::In, texts(&["active", "pending"]));
    assert_eq!(filter2.field, "status");
    assert_eq!(filter2.operator, FilterOperator::In);
    assert_eq!(filter2.value, FilterValue::Array(vec![FilterValue::text("active"), FilterValue::text("pending")]));
}

#[test]
fn test_filter_with_mixed_option_in_array() {
    let values: Vec<Option<&str>> = vec![Some("yes"), None, Some("maybe")];
    let items = values.into_iter().map(|v| FilterValue::from(v.map(FilterValue::text))).collect::<Vec<_>>();
    let filter = Filter::new("answer", FilterOperator::In, FilterValue::from(items));

    assert_eq!(filter.value, FilterValue::Array(vec![FilterValue::text("yes"), FilterValue::Null, FilterValue::text("maybe")]));
}

#[test]
fn sort_calls_append_in_order() {
    let p = SortingParams::new()
        .asc("id")
        .desc("created_at")
        .sort_by("id", SortDirection::Desc)
        .push(Sort::new("name", SortDirection::Asc));
    let fields: Vec<&str> = p.sorts().iter().map(|s| s.field.as_str()).collect();
    assert_eq!(fields, vec!["id", "created_at", "id", "name"]);
    let asc: Vec<bool> = p.sorts().iter().map(|s| s.is_asc()).collect();
    assert_eq!(asc, vec![true, false, false, true]);
}
