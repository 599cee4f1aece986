use cargo_mercury::error::MercuryError;
use cargo_mercury::parser::{parse_file, parse_struct};
use cargo_mercury::syntax::{FieldSyntax, FieldsSyntax, PathSegmentSyntax, TypeSyntax};
use cargo_mercury::types::{RustType, TypeKind};

#[test]
fn test_parse_simple_struct() {
    let source = r#"
        #[mercury]
        pub struct User {
            pub id: i32,
            pub name: String,
        }
    "#;

    let result = parse_file("test.rs", source).unwrap();

    assert_eq!(result.len(), 1);
    assert_eq!(result[0].name, "User");

    if let TypeKind::Struct(struct_type) = &result[0].kind {
        assert_eq!(struct_type.fields.len(), 2);
        assert_eq!(struct_type.fields[0].rust_name, "id");
        assert_eq!(struct_type.fields[0].field_type, RustType::Int);
        assert_eq!(struct_type.fields[1].rust_name, "name");
        assert_eq!(struct_type.fields[1].field_type, RustType::String);
    } else {
        panic!("Expected struct type");
    }
}

#[test]
fn test_parse_simple_enum() {
    let source = r#"
        #[mercury]
        pub enum Status {
            Active,
            Archived,
        }
    "#;

    let result = parse_file("test.rs", source).unwrap();

    assert_eq!(result.len(), 1);
    assert_eq!(result[0].name, "Status");

    if let TypeKind::Enum(enum_type) = &result[0].kind {
        assert_eq!(enum_type.variants.len(), 2);
        assert_eq!(enum_type.variants[0].rust_name, "Active");
        assert_eq!(enum_type.variants[1].rust_name, "Archived");
    } else {
        panic!("Expected enum type");
    }
}

#[test]
fn test_parse_ignores_non_mercury_types() {
    let source = r#"
        pub struct Foo {
            pub id: i32,
        }

        #[mercury]
        pub struct Bar {
            pub name: String,
        }
    "#;

    let result = parse_file("test.rs", source).unwrap();

    assert_eq!(result.len(), 1);
    assert_eq!(result[0].name, "Bar");
}

#[test]
fn test_parse_option_type() {
    let source = r#"
        #[mercury]
        pub struct User {
            pub name: String,
            pub email: Option<String>,
        }
    "#;

    let result = parse_file("test.rs", source).unwrap();

    if let TypeKind::Struct(struct_type) = &result[0].kind {
        assert_eq!(
            struct_type.fields[1].field_type,
            RustType::Option(Box::new(RustType::String))
        );
    }
}

#[test]
fn test_parse_vec_type() {
    let source = r#"
        #[mercury]
        pub struct Product {
            pub tags: Vec<String>,
        }
    "#;

    let result = parse_file("test.rs", source).unwrap();

    if let TypeKind::Struct(struct_type) = &result[0].kind {
        assert_eq!(
            struct_type.fields[0].field_type,
            RustType::Vec(Box::new(RustType::String))
        );
    }
}

#[test]
fn test_parse_serde_rename_all_camel_case() {
    let source = r#"
        #[mercury]
        #[serde(rename_all = "camelCase")]
        pub struct User {
            pub user_name: String,
            pub is_active: bool,
        }
    "#;

    let result = parse_file("test.rs", source).unwrap();

    if let TypeKind::Struct(struct_type) = &result[0].kind {
        assert_eq!(struct_type.fields[0].json_name, "userName");
        assert_eq!(struct_type.fields[1].json_name, "isActive");
    } else {
        panic!("Expected struct type");
    }
}

#[test]
fn test_parse_serde_skip_field() {
    let source = r#"
        #[mercury]
        pub struct User {
            pub name: String,
            #[serde(skip_serializing)]
            pub password: String,
        }
    "#;

    let result = parse_file("test.rs", source).unwrap();

    if let TypeKind::Struct(struct_type) = &result[0].kind {
        // Only one field should be present (password was skipped)
        assert_eq!(struct_type.fields.len(), 1);
        assert_eq!(struct_type.fields[0].rust_name, "name");
    } else {
        panic!("Expected struct type");
    }
}

#[test]
fn test_parse_enum_with_lowercase() {
    let source = r#"
        #[mercury]
        #[serde(rename_all = "lowercase")]
        pub enum EmailStatus {
            Sent,
            Failed,
            Pending,
        }
    "#;

    let result = parse_file("test.rs", source).unwrap();

    if let TypeKind::Enum(enum_type) = &result[0].kind {
        assert_eq!(enum_type.variants[0].json_name, "sent");
        assert_eq!(enum_type.variants[1].json_name, "failed");
        assert_eq!(enum_type.variants[2].json_name, "pending");
    } else {
        panic!("Expected enum type");
    }
}

#[test]
fn test_parse_field_rename_override() {
    let source = r#"
        #[mercury]
        #[serde(rename_all = "camelCase")]
        pub struct User {
            pub user_name: String,
            #[serde(rename = "custom")]
            pub is_active: bool,
        }
    "#;

    let result = parse_file("test.rs", source).unwrap();

    if let TypeKind::Struct(struct_type) = &result[0].kind {
        assert_eq!(struct_type.fields[0].json_name, "userName");
        assert_eq!(struct_type.fields[1].json_name, "custom");
    } else {
        panic!("Expected struct type");
    }
}

#[test]
fn test_parse_datetime_type() {
    let source = r#"
        use chrono::{DateTime, Utc};

        #[mercury]
        pub struct Event {
            pub created_at: DateTime<Utc>,
        }
    "#;

    let result = parse_file("test.rs", source).unwrap();

    if let TypeKind::Struct(struct_type) = &result[0].kind {
        assert_eq!(struct_type.fields[0].field_type, RustType::DateTime);
    } else {
        panic!("Expected struct type");
    }
}

#[test]
fn test_parse_uuid_type() {
    let source = r#"
        use uuid::Uuid;

        #[mercury]
        pub struct Record {
            pub id: Uuid,
        }
    "#;

    let result = parse_file("test.rs", source).unwrap();

    if let TypeKind::Struct(struct_type) = &result[0].kind {
        assert_eq!(struct_type.fields[0].field_type, RustType::Uuid);
    } else {
        panic!("Expected struct type");
    }
}

#[test]
fn test_parse_nested_datetime() {
    let source = r#"
        use chrono::{DateTime, Utc};

        #[mercury]
        pub struct Event {
            pub timestamps: Vec<DateTime<Utc>>,
            pub deleted_at: Option<DateTime<Utc>>,
        }
    "#;

    let result = parse_file("test.rs", source).unwrap();

    if let TypeKind::Struct(struct_type) = &result[0].kind {
        // timestamps: Vec<DateTime>
        assert_eq!(
            struct_type.fields[0].field_type,
            RustType::Vec(Box::new(RustType::DateTime))
        );
        // deleted_at: Option<DateTime>
        assert_eq!(
            struct_type.fields[1].field_type,
            RustType::Option(Box::new(RustType::DateTime))
        );
    } else {
        panic!("Expected struct type");
    }
}

#[test]
fn test_parse_nested_uuid() {
    let source = r#"
        use uuid::Uuid;

        #[mercury]
        pub struct Record {
            pub ids: Vec<Uuid>,
            pub parent_id: Option<Uuid>,
        }
    "#;

    let result = parse_file("test.rs", source).unwrap();

    if let TypeKind::Struct(struct_type) = &result[0].kind {
        // ids: Vec<Uuid>
        assert_eq!(
            struct_type.fields[0].field_type,
            RustType::Vec(Box::new(RustType::Uuid))
        );
        // parent_id: Option<Uuid>
        assert_eq!(
            struct_type.fields[1].field_type,
            RustType::Option(Box::new(RustType::Uuid))
        );
    } else {
        panic!("Expected struct type");
    }
}

#[test]
fn invalid_source_is_a_parse_error() {
    let result = parse_file("broken.rs", "pub struct {");
    match result {
        Err(MercuryError::ParseError { file, .. }) => assert_eq!(file, "broken.rs"),
        other => panic!("expected a parse error, got {:?}", other),
    }
}

#[test]
fn source_file_and_line_are_recorded() {
    let source = "#[mercury]\npub struct A {\n    pub id: i64,\n}\n\n#[mercury]\npub enum B { X }\n";
    let result = parse_file("src/models.rs", source).unwrap();
    assert_eq!(result.len(), 2);
    assert_eq!(result[0].source_file, "src/models.rs");
    assert_eq!(result[0].line, 2);
    assert_eq!(result[1].name, "B");
    assert_eq!(result[1].line, 7);
}

#[test]
fn unsupported_and_custom_types() {
    let source = r#"
        #[mercury]
        pub struct S {
            pub a: f64,
            pub b: Role,
            pub c: (i32, i32),
            pub d: Option,
            pub e: std::collections::HashMap<String, i32>,
            pub f: bool,
        }
    "#;
    let result = parse_file("test.rs", source).unwrap();
    if let TypeKind::Struct(st) = &result[0].kind {
        assert_eq!(st.fields[0].field_type, RustType::Float);
        assert_eq!(st.fields[1].field_type, RustType::Custom("Role".to_string()));
        assert!(matches!(st.fields[2].field_type, RustType::Unsupported(_)));
        assert_eq!(
            st.fields[3].field_type,
            RustType::Unsupported("Option without type argument".to_string())
        );
        assert_eq!(st.fields[4].field_type, RustType::Custom("HashMap".to_string()));
        assert_eq!(st.fields[5].field_type, RustType::Bool);
    } else {
        panic!("Expected struct type");
    }
}

#[test]
fn tuple_and_unit_structs_have_no_fields() {
    let source = "#[mercury]\npub struct T(i32);\n#[mercury]\npub struct U;\n";
    let result = parse_file("test.rs", source).unwrap();
    for def in &result {
        if let TypeKind::Struct(st) = &def.kind {
            assert!(st.fields.is_empty());
        } else {
            panic!("Expected struct type");
        }
    }
}

#[test]
fn camel_case_of_multibyte_word() {
    let source = r#"
        #[mercury]
        #[serde(rename_all = "camelCase")]
        pub struct S {
            pub a_élan: i32,
        }
    "#;
    let result = parse_file("test.rs", source).unwrap();
    if let TypeKind::Struct(st) = &result[0].kind {
        assert_eq!(st.fields[0].json_name, "aÉlan");
    } else {
        panic!("Expected struct type");
    }
}

#[test]
fn syntax_errors_carry_syns_message() {
    match parse_file("bad.rs", "pub struct {") {
        Err(MercuryError::ParseError { file, message }) => {
            assert_eq!(file, "bad.rs");
            assert!(!message.is_empty());
        }
        other => panic!("expected a parse error, got {:?}", other),
    }
}

#[test]
fn decimal_and_json_values_are_recognised() {
    let source = r#"
        #[mercury]
        pub struct Price {
            pub amount: rust_decimal::Decimal,
            pub extra: serde_json::Value,
        }
    "#;
    let result = parse_file("test.rs", source).unwrap();
    if let TypeKind::Struct(st) = &result[0].kind {
        assert_eq!(st.fields[0].field_type, RustType::Decimal);
        assert_eq!(st.fields[1].field_type, RustType::JsonValue);
    } else {
        panic!("Expected struct type");
    }
}

#[test]
fn skipped_variants_are_left_out() {
    let source = r#"
        #[mercury]
        pub enum Status {
            Active,
            #[serde(skip_serializing)]
            Legacy,
        }
    "#;
    let result = parse_file("test.rs", source).unwrap();
    if let TypeKind::Enum(et) = &result[0].kind {
        assert_eq!(et.variants.len(), 1);
        assert_eq!(et.variants[0].rust_name, "Active");
        assert_eq!(et.variants[0].json_name, "Active");
    } else {
        panic!("Expected enum type");
    }
}

#[test]
fn skip_and_skip_serializing_if_on_fields() {
    let source = r#"
        #[mercury]
        #[serde(rename_all = "camelCase")]
        pub struct User {
            pub user_id: i32,
            #[serde(skip)]
            pub secret: String,
            #[serde(skip_serializing_if = "Option::is_none")]
            pub nick_name: Option<String>,
        }
    "#;
    let result = parse_file("test.rs", source).unwrap();
    if let TypeKind::Struct(st) = &result[0].kind {
        assert_eq!(st.fields.len(), 2);
        assert_eq!(st.fields[0].json_name, "userId");
        assert_eq!(st.fields[1].json_name, "nickName");
    } else {
        panic!("Expected struct type");
    }
}

#[test]
fn camel_case_variants_start_lowercase() {
    let source = r#"
        #[mercury]
        #[serde(rename_all = "camelCase")]
        pub enum Role {
            ActiveUser,
            Admin,
        }
    "#;
    let result = parse_file("test.rs", source).unwrap();
    if let TypeKind::Enum(et) = &result[0].kind {
        assert_eq!(et.variants[0].json_name, "activeUser");
        assert_eq!(et.variants[1].json_name, "admin");
    } else {
        panic!("Expected enum type");
    }
}

#[test]
fn parse_struct_needs_no_mercury_attribute() {
    let fields = FieldsSyntax::Named(vec![FieldSyntax {
        ident: "id".to_string(),
        ty: TypeSyntax::Path {
            last_segment: Some(PathSegmentSyntax { ident: "i32".to_string(), type_argument: None }),
        },
        attrs: vec![],
    }]);
    let def = parse_struct("test.rs", &"Plain".to_string(), 3, &vec![], &fields);
    assert_eq!(def.name, "Plain");
    assert_eq!(def.source_file, "test.rs");
    assert_eq!(def.line, 3);
    if let TypeKind::Struct(st) = &def.kind {
        assert_eq!(st.fields.len(), 1);
        assert_eq!(st.fields[0].json_name, "id");
        assert_eq!(st.fields[0].field_type, RustType::Int);
    } else {
        panic!("Expected struct type");
    }
}

#[test]
fn unsupported_types_are_kept_as_unsupported() {
    let source = r#"
        #[mercury]
        pub struct Pair {
            pub both: (i32, i32),
        }
    "#;
    let first = parse_file("test.rs", source).unwrap();
    let second = parse_file("test.rs", source).unwrap();
    for result in [&first, &second] {
        if let TypeKind::Struct(st) = &result[0].kind {
            assert!(matches!(st.fields[0].field_type, RustType::Unsupported(_)));
        } else {
            panic!("Expected struct type");
        }
    }
}
