use sqlx_data::binding::BoundArg;
use sqlx_data::database::Database;
use sqlx_data::filter::FilterValue;

#[test]
fn values_bound_per_database() {
    let values = vec![
        FilterValue::String("a".to_string()),
        FilterValue::Int(-3),
        FilterValue::UInt(u64::MAX),
        FilterValue::Float(1.5f64.to_bits()),
        FilterValue::Bool(true),
        FilterValue::Null,
        FilterValue::Blob(vec![1, 2]),
    ];
    let sqlite = FilterValue::build_arguments(&values, Database::Sqlite).unwrap();
    assert_eq!(
        sqlite,
        vec![
            BoundArg::Text("a".to_string()),
            BoundArg::Int(-3),
            BoundArg::Int(-1),
            BoundArg::Float(1.5f64.to_bits()),
            BoundArg::Int(1),
            BoundArg::Null,
            BoundArg::Blob(vec![1, 2]),
        ]
    );
    let mysql = FilterValue::build_arguments(&values, Database::MySql).unwrap();
    assert_eq!(mysql[2], BoundArg::UInt(u64::MAX));
    assert_eq!(mysql[4], BoundArg::Int(1));
    let postgres = FilterValue::build_arguments(&values, Database::Postgres).unwrap();
    assert_eq!(postgres[2], BoundArg::Int(-1));
    assert_eq!(postgres[4], BoundArg::Bool(true));
}

#[test]
fn arrays_cannot_be_bound() {
    let values = vec![FilterValue::Int(1), FilterValue::Array(vec![FilterValue::Int(2)])];
    assert_eq!(FilterValue::build_arguments(&values, Database::Postgres).unwrap_err(), "Array binding not supported");
    assert!(FilterValue::build_arguments(&vec![], Database::Sqlite).unwrap().is_empty());
}
