use cargo_mercury::serde_attrs::SerdeAttrs;
use cargo_mercury::types::{EnumType, Field, RustType, StructType, TypeDefinition, TypeKind};

#[test]
fn test_collect_custom_types_primitive() {
    let rust_type = RustType::Int;
    let types = rust_type.collect_custom_types();
    assert!(
        types.is_empty(),
        "Primitive types should have no dependencies"
    );
}

#[test]
fn test_collect_custom_types_custom() {
    let rust_type = RustType::Custom("Role".to_string());
    let types = rust_type.collect_custom_types();
    assert_eq!(types, vec!["Role"]);
}

#[test]
fn test_collect_custom_types_option() {
    let rust_type = RustType::Option(Box::new(RustType::Custom("User".to_string())));
    let types = rust_type.collect_custom_types();
    assert_eq!(types, vec!["User"]);
}

#[test]
fn test_collect_custom_types_vec() {
    let rust_type = RustType::Vec(Box::new(RustType::Custom("Product".to_string())));
    let types = rust_type.collect_custom_types();
    assert_eq!(types, vec!["Product"]);
}

#[test]
fn test_collect_custom_types_nested() {
    let rust_type = RustType::Vec(Box::new(RustType::Option(Box::new(RustType::Custom(
        "Item".to_string(),
    )))));
    let types = rust_type.collect_custom_types();
    assert_eq!(types, vec!["Item"]);
}

#[test]
fn test_collect_dependencies_struct() {
    let type_def = TypeDefinition {
        name: "User".to_string(),
        source_file: "test.rs".to_string(),
        line: 0,
        kind: TypeKind::Struct(StructType {
            fields: vec![
                Field {
                    rust_name: "role".to_string(),
                    json_name: "role".to_string(),
                    field_type: RustType::Custom("Role".to_string()),
                },
                Field {
                    rust_name: "status".to_string(),
                    json_name: "status".to_string(),
                    field_type: RustType::Custom("Status".to_string()),
                },
            ],
            rename_all: None,
        }),
        serde_attrs: SerdeAttrs::default(),
    };

    let deps = type_def.collect_dependencies();
    assert_eq!(deps.len(), 2);
    assert!(deps.contains(&"Role".to_string()));
    assert!(deps.contains(&"Status".to_string()));
}

#[test]
fn test_collect_dependencies_enum() {
    let type_def = TypeDefinition {
        name: "Status".to_string(),
        source_file: "test.rs".to_string(),
        line: 0,
        kind: TypeKind::Enum(EnumType {
            variants: vec![],
            rename_all: None,
        }),
        serde_attrs: SerdeAttrs::default(),
    };

    let deps = type_def.collect_dependencies();
    assert!(deps.is_empty(), "Enums should have no dependencies");
}

#[test]
fn dependencies_keep_field_order_and_repeats() {
    let field = |name: &str, t: RustType| Field {
        rust_name: name.to_string(),
        json_name: name.to_string(),
        field_type: t,
    };
    let type_def = TypeDefinition {
        name: "Order".to_string(),
        source_file: "orders.rs".to_string(),
        line: 4,
        kind: TypeKind::Struct(StructType {
            fields: vec![
                field("id", RustType::Int),
                field("items", RustType::Vec(Box::new(RustType::Custom("Item".to_string())))),
                field("buyer", RustType::Option(Box::new(RustType::Custom("User".to_string())))),
                field("seller", RustType::Custom("User".to_string())),
            ],
            rename_all: None,
        }),
        serde_attrs: SerdeAttrs::default(),
    };
    assert_eq!(type_def.collect_dependencies(), vec!["Item", "User", "User"]);
    let copy = type_def.clone();
    assert_eq!(copy.collect_dependencies(), vec!["Item", "User", "User"]);
    assert_eq!(copy.name, "Order");
    assert_eq!(copy.line, 4);
}
