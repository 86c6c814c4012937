use sqlx_data::dml::FnInput;
use sqlx_data::syntax::{PathArguments, PathSegment, TypeExpr};
use sqlx_data::variants::{generate_single_variant, generate_variant_parameter, get_variant_suffix, VariantConfig, VariantType};

#[test]
fn test_parse_variant_config() {
    assert!(matches!(VariantConfig::parse("pool").unwrap().variant_type, VariantType::Pool));
    assert!(matches!(VariantConfig::parse("tx").unwrap().variant_type, VariantType::Tx));
    assert!(matches!(VariantConfig::parse("conn").unwrap().variant_type, VariantType::Conn));
    assert!(matches!(VariantConfig::parse("exec").unwrap().variant_type, VariantType::Exec));
    assert_eq!(
        VariantConfig::parse("other").unwrap_err().to_string(),
        "Invalid variant type. Expected: pool, tx, conn, or exec"
    );
}

#[test]
fn test_variant_suffix() {
    assert_eq!(get_variant_suffix(&VariantType::Pool), "_with_pool");
    assert_eq!(get_variant_suffix(&VariantType::Tx), "_with_tx");
    assert_eq!(get_variant_suffix(&VariantType::Conn), "_with_conn");
    assert_eq!(get_variant_suffix(&VariantType::Exec), "_with_executor");
}

fn path_idents(t: &TypeExpr) -> Vec<String> {
    match t {
        TypeExpr::Path(segs) => segs.iter().map(|s| s.ident.clone()).collect(),
        _ => vec![],
    }
}

#[test]
fn test_generate_variant_parameter() {
    let (name, ty) = generate_variant_parameter(&VariantType::Pool);
    assert_eq!(name, "pool");
    match &ty {
        TypeExpr::Reference(false, inner) => assert_eq!(path_idents(inner), vec!["sqlx_data", "Pool"]),
        _ => panic!("expected &sqlx_data::Pool"),
    }

    let (name, ty) = generate_variant_parameter(&VariantType::Tx);
    assert_eq!(name, "transaction");
    match &ty {
        TypeExpr::Reference(true, inner) => {
            assert_eq!(path_idents(inner), vec!["sqlx_data", "Transaction"]);
            match &**inner {
                TypeExpr::Path(segs) => assert!(matches!(segs[1].arguments, PathArguments::AngleBracketed(ref a) if a.len() == 1)),
                _ => unreachable!(),
            }
        }
        _ => panic!("expected &mut sqlx_data::Transaction<'_>"),
    }
    let (name, ty) = generate_variant_parameter(&VariantType::Exec);
    assert_eq!(name, "executor");
    assert!(matches!(ty, TypeExpr::ImplTrait(ref b) if b.len() == 1));
}

#[test]
fn test_single_variant_generation() {
    let inputs = vec![
        FnInput::Receiver,
        FnInput::Typed(
            Some("id".to_string()),
            TypeExpr::Path(vec![PathSegment { ident: "i64".to_string(), arguments: PathArguments::Bare }]),
        ),
    ];
    let (name, new_inputs) = generate_single_variant("delete_user", &inputs, &VariantConfig { variant_type: VariantType::Pool });
    assert_eq!(name, "delete_user_with_pool");
    assert_eq!(new_inputs.len(), 3);
    assert!(matches!(new_inputs[0], FnInput::Receiver));
    assert!(matches!(new_inputs[1], FnInput::Typed(Some(ref n), _) if n == "pool"));
    assert!(matches!(new_inputs[2], FnInput::Typed(Some(ref n), _) if n == "id"));

    let (name, new_inputs) = generate_single_variant("delete_user", &inputs, &VariantConfig { variant_type: VariantType::Tx });
    assert_eq!(name, "delete_user_with_tx");
    assert_eq!(new_inputs.len(), 3);
}
