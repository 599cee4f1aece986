use cargo_mercury::analyzer::{map_type, needs_parens, unsupported_type_warning, PureScriptType};
use cargo_mercury::types::RustType;

#[test]
fn test_map_decimal_to_number() {
    assert_eq!(map_type(&RustType::Decimal), PureScriptType::Number);
}

#[test]
fn test_map_json_value_to_json() {
    assert_eq!(map_type(&RustType::JsonValue), PureScriptType::Json);
}

#[test]
fn test_json_display() {
    assert_eq!(PureScriptType::Json.to_purescript(), "Json");
}

#[test]
fn test_simple_maybe_no_parens() {
    let ty = PureScriptType::Maybe(Box::new(PureScriptType::String));
    assert_eq!(ty.to_purescript(), "Maybe String");
}

#[test]
fn test_simple_array_no_parens() {
    let ty = PureScriptType::Array(Box::new(PureScriptType::Int));
    assert_eq!(ty.to_purescript(), "Array Int");
}

#[test]
fn test_maybe_array_with_parens() {
    // Option<Vec<T>> should generate Maybe (Array T)
    let ty = PureScriptType::Maybe(Box::new(PureScriptType::Array(Box::new(
        PureScriptType::String,
    ))));
    assert_eq!(ty.to_purescript(), "Maybe (Array String)");
}

#[test]
fn test_array_maybe_with_parens() {
    // Vec<Option<T>> should generate Array (Maybe T)
    let ty = PureScriptType::Array(Box::new(PureScriptType::Maybe(Box::new(
        PureScriptType::Int,
    ))));
    assert_eq!(ty.to_purescript(), "Array (Maybe Int)");
}

#[test]
fn test_deeply_nested_types() {
    // Option<Vec<Option<T>>> should generate Maybe (Array (Maybe T))
    let ty = PureScriptType::Maybe(Box::new(PureScriptType::Array(Box::new(
        PureScriptType::Maybe(Box::new(PureScriptType::Custom("User".to_string()))),
    ))));
    assert_eq!(ty.to_purescript(), "Maybe (Array (Maybe User))");
}

#[test]
fn test_maybe_custom_no_parens() {
    let ty = PureScriptType::Maybe(Box::new(PureScriptType::Custom("User".to_string())));
    assert_eq!(ty.to_purescript(), "Maybe User");
}

#[test]
fn test_array_custom_no_parens() {
    let ty = PureScriptType::Array(Box::new(PureScriptType::Custom("Product".to_string())));
    assert_eq!(ty.to_purescript(), "Array Product");
}

#[test]
fn test_map_nested_option_vec() {
    // Test that map_type correctly handles Option<Vec<T>>
    let rust_type = RustType::Option(Box::new(RustType::Vec(Box::new(RustType::String))));
    let ps_type = map_type(&rust_type);
    assert_eq!(ps_type.to_purescript(), "Maybe (Array String)");
}

#[test]
fn test_map_nested_vec_option() {
    // Test that map_type correctly handles Vec<Option<T>>
    let rust_type = RustType::Vec(Box::new(RustType::Option(Box::new(RustType::Int))));
    let ps_type = map_type(&rust_type);
    assert_eq!(ps_type.to_purescript(), "Array (Maybe Int)");
}

#[test]
fn map_type_covers_every_rust_type() {
    assert_eq!(map_type(&RustType::Int), PureScriptType::Int);
    assert_eq!(map_type(&RustType::Float), PureScriptType::Number);
    assert_eq!(map_type(&RustType::Bool), PureScriptType::Boolean);
    assert_eq!(map_type(&RustType::String), PureScriptType::String);
    assert_eq!(map_type(&RustType::DateTime), PureScriptType::String);
    assert_eq!(map_type(&RustType::Uuid), PureScriptType::Custom("UUID".to_string()));
    assert_eq!(
        map_type(&RustType::Custom("Order".to_string())),
        PureScriptType::Custom("Order".to_string())
    );
    assert_eq!(
        map_type(&RustType::Unsupported("(i32, i32)".to_string())),
        PureScriptType::String
    );
}

#[test]
fn primitive_texts() {
    assert_eq!(PureScriptType::Int.to_purescript(), "Int");
    assert_eq!(PureScriptType::Number.to_purescript(), "Number");
    assert_eq!(PureScriptType::Boolean.to_purescript(), "Boolean");
    assert_eq!(PureScriptType::String.to_purescript(), "String");
}

#[test]
fn needs_parens_only_for_applications() {
    assert!(needs_parens(&PureScriptType::Maybe(Box::new(PureScriptType::Int))));
    assert!(needs_parens(&PureScriptType::Array(Box::new(PureScriptType::Int))));
    assert!(!needs_parens(&PureScriptType::Int));
    assert!(!needs_parens(&PureScriptType::Custom("User".to_string())));
}

#[test]
fn unsupported_types_are_reported() {
    let nested = RustType::Vec(Box::new(RustType::Unsupported("empty path".to_string())));
    assert_eq!(
        unsupported_type_warning(&nested),
        Some("Warning: Unsupported type 'empty path' mapped to String".to_string())
    );
    assert_eq!(unsupported_type_warning(&RustType::Int), None);
}
