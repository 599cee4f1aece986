use cargo_mercury::codec_gen::{
    generate_codecs, generate_enum_decoder, generate_enum_encoder, generate_field_decoder,
    generate_struct_decoder, generate_struct_encoder,
};
use cargo_mercury::serde_attrs::SerdeAttrs;
use cargo_mercury::types::{EnumType, EnumVariant, Field, RustType, StructType, TypeDefinition, TypeKind};

#[test]
fn test_generate_struct_decoder() {
    let struct_type = StructType {
        fields: vec![
            Field {
                rust_name: "id".to_string(),
                json_name: "id".to_string(),
                field_type: RustType::Int,
            },
            Field {
                rust_name: "name".to_string(),
                json_name: "name".to_string(),
                field_type: RustType::String,
            },
        ],
        rename_all: None,
    };

    let output = generate_struct_decoder("User", &struct_type);

    assert!(output.contains("instance decodeUser :: DecodeJson User where"));
    assert!(output.contains("obj <- decodeJson json"));
    assert!(output.contains("id <- obj .: \"id\""));
    assert!(output.contains("name <- obj .: \"name\""));
    assert!(output.contains("pure $ User"));
}

#[test]
fn test_generate_struct_encoder() {
    let struct_type = StructType {
        fields: vec![Field {
            rust_name: "id".to_string(),
            json_name: "id".to_string(),
            field_type: RustType::Int,
        }],
        rename_all: None,
    };

    let output = generate_struct_encoder("User", &struct_type);

    assert!(output.contains("instance encodeUser :: EncodeJson User where"));
    assert!(output.contains("encodeJson (User record)"));
    assert!(output.contains("\"id\": record.id"));
}

#[test]
fn test_generate_enum_decoder() {
    let enum_type = EnumType {
        variants: vec![
            EnumVariant {
                rust_name: "Active".to_string(),
                json_name: "Active".to_string(),
            },
            EnumVariant {
                rust_name: "Inactive".to_string(),
                json_name: "Inactive".to_string(),
            },
        ],
        rename_all: None,
    };

    let output = generate_enum_decoder("Status", &enum_type);

    assert!(output.contains("instance decodeStatus :: DecodeJson Status where"));
    assert!(output.contains("str <- decodeJson json"));
    assert!(output.contains("\"Active\" -> Right Active"));
    assert!(output.contains("\"Inactive\" -> Right Inactive"));
    assert!(output.contains("TypeMismatch"));
}

#[test]
fn test_generate_enum_encoder() {
    let enum_type = EnumType {
        variants: vec![EnumVariant {
            rust_name: "Draft".to_string(),
            json_name: "Draft".to_string(),
        }],
        rename_all: None,
    };

    let output = generate_enum_encoder("Status", &enum_type);

    assert!(output.contains("instance encodeStatus :: EncodeJson Status where"));
    assert!(output.contains("Draft -> \"Draft\""));
    assert!(output.contains("encodeJson str"));
}

#[test]
fn test_generate_optional_field() {
    let struct_type = StructType {
        fields: vec![Field {
            rust_name: "email".to_string(),
            json_name: "email".to_string(),
            field_type: RustType::Option(Box::new(RustType::String)),
        }],
        rename_all: None,
    };

    let output = generate_struct_decoder("User", &struct_type);

    // Optional fields should use .:? instead of .:
    assert!(output.contains("email <- obj .:? \"email\""));
}

fn product_request() -> StructType {
    StructType {
        fields: vec![
            Field {
                rust_name: "product_id".to_string(),
                json_name: "productId".to_string(),
                field_type: RustType::Int,
            },
            Field {
                rust_name: "new_name".to_string(),
                json_name: "newName".to_string(),
                field_type: RustType::Option(Box::new(RustType::String)),
            },
        ],
        rename_all: None,
    }
}

#[test]
fn struct_decoder_exact_text() {
    let output = generate_struct_decoder("UpdateProductRequest", &product_request());
    assert_eq!(
        output,
        "instance decodeUpdateProductRequest :: DecodeJson UpdateProductRequest where\n\
         \x20 decodeJson json = do\n\
         \x20   obj <- decodeJson json\n\
         \x20   productId <- obj .: \"productId\"\n\
         \x20   newName <- obj .:? \"newName\"\n\
         \x20   pure $ UpdateProductRequest \n\
         \x20     { productId\n\
         \x20     , newName\n\
         \x20     }\n"
    );
}

#[test]
fn struct_encoder_exact_text() {
    let output = generate_struct_encoder("UpdateProductRequest", &product_request());
    assert_eq!(
        output,
        "instance encodeUpdateProductRequest :: EncodeJson UpdateProductRequest where\n\
         \x20 encodeJson (UpdateProductRequest record) =\n\
         \x20   encodeJson\n\
         \x20     { \"productId\": record.productId\n\
         \x20     , \"newName\": record.newName\n\
         \x20     }\n"
    );
}

fn order_status() -> EnumType {
    EnumType {
        variants: vec![
            EnumVariant { rust_name: "Pending".to_string(), json_name: "pending".to_string() },
            EnumVariant { rust_name: "Shipped".to_string(), json_name: "shipped".to_string() },
        ],
        rename_all: None,
    }
}

#[test]
fn enum_decoder_exact_text() {
    let output = generate_enum_decoder("OrderStatus", &order_status());
    assert_eq!(
        output,
        "instance decodeOrderStatus :: DecodeJson OrderStatus where\n\
         \x20 decodeJson json = do\n\
         \x20   str <- decodeJson json\n\
         \x20   case str of\n\
         \x20     \"pending\" -> Right Pending\n\
         \x20     \"shipped\" -> Right Shipped\n\
         \x20     _ -> Left $ TypeMismatch \"Invalid OrderStatus\"\n"
    );
}

#[test]
fn enum_encoder_exact_text() {
    let output = generate_enum_encoder("OrderStatus", &order_status());
    assert_eq!(
        output,
        "instance encodeOrderStatus :: EncodeJson OrderStatus where\n\
         \x20 encodeJson value =\n\
         \x20   let\n\
         \x20     str = case value of\n\
         \x20       Pending -> \"pending\"\n\
         \x20       Shipped -> \"shipped\"\n\
         \x20   in\n\
         \x20     encodeJson str\n"
    );
}

#[test]
fn codecs_join_decoder_and_encoder() {
    let def = TypeDefinition {
        name: "OrderStatus".to_string(),
        source_file: "models.rs".to_string(),
        line: 3,
        kind: TypeKind::Enum(order_status()),
        serde_attrs: SerdeAttrs::default(),
    };
    let expected = format!(
        "{}\n{}",
        generate_enum_decoder("OrderStatus", &order_status()),
        generate_enum_encoder("OrderStatus", &order_status())
    );
    assert_eq!(generate_codecs(&def), expected);

    let def = TypeDefinition {
        name: "UpdateProductRequest".to_string(),
        source_file: "models.rs".to_string(),
        line: 9,
        kind: TypeKind::Struct(product_request()),
        serde_attrs: SerdeAttrs::default(),
    };
    let expected = format!(
        "{}\n{}",
        generate_struct_decoder("UpdateProductRequest", &product_request()),
        generate_struct_encoder("UpdateProductRequest", &product_request())
    );
    assert_eq!(generate_codecs(&def), expected);
}

#[test]
fn field_decoder_by_type() {
    assert_eq!(generate_field_decoder("id", &RustType::Int), "obj .: \"id\"");
    assert_eq!(
        generate_field_decoder("tags", &RustType::Vec(Box::new(RustType::String))),
        "obj .: \"tags\""
    );
    assert_eq!(
        generate_field_decoder("email", &RustType::Option(Box::new(RustType::String))),
        "obj .:? \"email\""
    );
}

#[test]
fn empty_struct_codecs() {
    let st = StructType { fields: vec![], rename_all: None };
    assert_eq!(
        generate_struct_decoder("Unit", &st),
        "instance decodeUnit :: DecodeJson Unit where\n  decodeJson json = do\n    obj <- decodeJson json\n    pure $ Unit \n      { \n      }\n"
    );
}

#[test]
fn kebab_case_names_are_bound_to_identifiers() {
    let td = TypeDefinition {
        name: "User".to_string(),
        source_file: "test.rs".to_string(),
        line: 1,
        kind: TypeKind::Struct(StructType {
            fields: vec![Field {
                rust_name: "user_name".to_string(),
                json_name: "user-name".to_string(),
                field_type: RustType::String,
            }],
            rename_all: None,
        }),
        serde_attrs: SerdeAttrs::default(),
    };
    let output = generate_codecs(&td);
    assert!(output.contains("    _user_name <- obj .: \"user-name\"\n"));
    assert!(output.contains("{ \"user-name\": _user_name\n"));
    assert!(output.contains("\"user-name\": record.\"user-name\""));
    assert!(!output.contains("user-name <-"));
}

#[test]
fn keyword_names_are_quoted() {
    let st = StructType {
        fields: vec![Field {
            rust_name: "kind".to_string(),
            json_name: "type".to_string(),
            field_type: RustType::String,
        }],
        rename_all: None,
    };
    let dec = generate_struct_decoder("Thing", &st);
    assert!(dec.contains("    _type <- obj .: \"type\"\n"));
    assert!(dec.contains("{ \"type\": _type\n"));
    let enc = generate_struct_encoder("Thing", &st);
    assert!(enc.contains("\"type\": record.\"type\""));
}

#[test]
fn enum_encoding_and_decoding_agree() {
    let et = EnumType {
        variants: vec![
            EnumVariant { rust_name: "Pending".to_string(), json_name: "pending".to_string() },
            EnumVariant { rust_name: "Shipped".to_string(), json_name: "shipped".to_string() },
        ],
        rename_all: None,
    };
    let enc = generate_enum_encoder("OrderStatus", &et);
    let dec = generate_enum_decoder("OrderStatus", &et);
    for v in &et.variants {
        assert!(enc.contains(&format!("        {} -> \"{}\"\n", v.rust_name, v.json_name)));
        assert!(dec.contains(&format!("      \"{}\" -> Right {}\n", v.json_name, v.rust_name)));
    }
    assert!(dec.contains("      _ -> Left $ TypeMismatch \"Invalid OrderStatus\"\n"));
}
