use cargo_mercury::serde_attrs::{
    extract_string_value, parse_serde_attrs, to_camel_case, to_kebab_case, to_pascal_case,
    to_screaming_snake_case, to_snake_case, RenameRule, SerdeAttrs,
};
use cargo_mercury::syntax::AttrSyntax;

#[test]
fn test_rename_rule_parse() {
    assert_eq!(RenameRule::parse("camelCase"), Some(RenameRule::CamelCase));
    assert_eq!(RenameRule::parse("lowercase"), Some(RenameRule::Lowercase));
    assert_eq!(RenameRule::parse("invalid"), None);
}

#[test]
fn test_to_camel_case() {
    assert_eq!(to_camel_case("user_name"), "userName");
    assert_eq!(to_camel_case("is_active"), "isActive");
    assert_eq!(to_camel_case("id"), "id");
    assert_eq!(to_camel_case("user_id"), "userId");
}

#[test]
fn test_to_snake_case() {
    assert_eq!(to_snake_case("userName"), "user_name");
    assert_eq!(to_snake_case("isActive"), "is_active");
    assert_eq!(to_snake_case("UserId"), "user_id");
}

#[test]
fn test_to_pascal_case() {
    assert_eq!(to_pascal_case("user_name"), "UserName");
    assert_eq!(to_pascal_case("is_active"), "IsActive");
}

#[test]
fn test_to_lowercase() {
    let rule = RenameRule::Lowercase;
    assert_eq!(rule.apply("Active"), "active");
    assert_eq!(rule.apply("Pending"), "pending");
}

#[test]
fn test_rename_all_camel_case() {
    let attrs = SerdeAttrs {
        rename_all: Some(RenameRule::CamelCase),
        ..Default::default()
    };

    assert_eq!(attrs.get_json_name("user_name", None), "userName");
    assert_eq!(attrs.get_json_name("is_default", None), "isDefault");
}

#[test]
fn test_explicit_rename_overrides_rename_all() {
    let attrs = SerdeAttrs {
        rename: Some("customName".to_string()),
        ..Default::default()
    };

    assert_eq!(
        attrs.get_json_name("user_name", Some(RenameRule::CamelCase)),
        "customName"
    );
}

#[test]
fn test_should_skip() {
    let mut attrs = SerdeAttrs::default();
    assert!(!attrs.should_skip());

    attrs.skip = true;
    assert!(attrs.should_skip());

    attrs.skip = false;
    attrs.skip_serializing = true;
    assert!(attrs.should_skip());
}

#[test]
fn every_rule_name_parses() {
    assert_eq!(RenameRule::parse("snake_case"), Some(RenameRule::SnakeCase));
    assert_eq!(RenameRule::parse("PascalCase"), Some(RenameRule::PascalCase));
    assert_eq!(
        RenameRule::parse("SCREAMING_SNAKE_CASE"),
        Some(RenameRule::ScreamingSnakeCase)
    );
    assert_eq!(RenameRule::parse("kebab-case"), Some(RenameRule::KebabCase));
    assert_eq!(RenameRule::parse("UPPERCASE"), Some(RenameRule::Uppercase));
    assert_eq!(RenameRule::parse("camelcase"), None);
    assert_eq!(RenameRule::parse(""), None);
}

#[test]
fn readme_rename_examples() {
    assert_eq!(RenameRule::CamelCase.apply("user_name"), "userName");
    assert_eq!(RenameRule::PascalCase.apply("user_name"), "UserName");
    assert_eq!(RenameRule::SnakeCase.apply("UserName"), "user_name");
    assert_eq!(RenameRule::ScreamingSnakeCase.apply("user_name"), "USER_NAME");
    assert_eq!(RenameRule::KebabCase.apply("user_name"), "user-name");
    assert_eq!(RenameRule::Lowercase.apply("UserName"), "username");
    assert_eq!(RenameRule::Uppercase.apply("user_name"), "USER_NAME");
    assert_eq!(RenameRule::Unchanged.apply("user_name"), "user_name");
}

#[test]
fn case_conversion_edge_cases() {
    assert_eq!(to_snake_case("HTTPServer"), "httpserver");
    assert_eq!(to_snake_case("already_snake"), "already_snake");
    assert_eq!(to_snake_case(""), "");
    assert_eq!(to_camel_case("a__b"), "aB");
    assert_eq!(to_camel_case("_leading"), "Leading");
    assert_eq!(to_pascal_case("trailing_"), "Trailing");
    assert_eq!(to_screaming_snake_case("userId"), "USER_ID");
    assert_eq!(to_kebab_case("UserId"), "user-id");
}

#[test]
fn json_name_precedence() {
    let own_rule = SerdeAttrs {
        rename_all: Some(RenameRule::Uppercase),
        ..Default::default()
    };
    assert_eq!(own_rule.get_json_name("id", Some(RenameRule::CamelCase)), "ID");
    let plain = SerdeAttrs::default();
    assert_eq!(plain.get_json_name("user_id", Some(RenameRule::PascalCase)), "UserId");
    assert_eq!(plain.get_json_name("user_id", None), "user_id");
}

#[test]
fn string_values() {
    assert_eq!(
        extract_string_value("serde (rename_all = \"camelCase\")"),
        Some("camelCase".to_string())
    );
    assert_eq!(extract_string_value("rename = \"id\""), Some("id".to_string()));
    assert_eq!(extract_string_value("skip"), None);
    assert_eq!(extract_string_value("a = b = c"), Some("b".to_string()));
}

fn serde_attr(tokens: &str) -> AttrSyntax {
    AttrSyntax {
        path_idents: vec!["serde".to_string()],
        path_is_serde: true,
        tokens: tokens.to_string(),
    }
}

#[test]
fn attributes_are_read_in_order() {
    let attrs = vec![
        serde_attr("serde (rename_all = \"camelCase\")"),
        AttrSyntax {
            path_idents: vec!["derive".to_string()],
            path_is_serde: false,
            tokens: "derive (Debug , skip)".to_string(),
        },
        serde_attr("serde (rename = \"id\" , skip_deserializing)"),
    ];
    let a = parse_serde_attrs(&attrs);
    assert_eq!(a.rename_all, Some(RenameRule::CamelCase));
    assert_eq!(a.rename, Some("id".to_string()));
    assert!(a.skip_deserializing);
    assert!(!a.skip);
    assert!(!a.skip_serializing);

    // Parts are read by their key, so a lone `skip` is read as well as one
    // between other parts.
    let a = parse_serde_attrs(&[serde_attr("serde (skip)")]);
    assert!(a.skip);
    assert!(a.should_skip());
    let a = parse_serde_attrs(&[serde_attr("serde (default , skip , alias = \"x\")")]);
    assert!(a.skip);
    let a = parse_serde_attrs(&[serde_attr("serde (rename_all = \"nonsense\")")]);
    assert_eq!(a.rename_all, None);
    let a = parse_serde_attrs(&[
        serde_attr("serde (rename_all = \"camelCase\")"),
        serde_attr("serde (rename_all = \"nonsense\")"),
    ]);
    assert_eq!(a.rename_all, None);
}

#[test]
fn skip_serializing_if_does_not_skip() {
    let a = parse_serde_attrs(&[serde_attr("serde (skip_serializing_if = \"Option::is_none\")")]);
    assert!(!a.skip_serializing);
    assert!(!a.should_skip());
    let a = parse_serde_attrs(&[serde_attr("serde (default , skip_serializing)")]);
    assert!(a.skip_serializing);
    let a = parse_serde_attrs(&[serde_attr("serde (skip_deserializing , rename = \"x\")")]);
    assert!(a.skip_deserializing);
    assert_eq!(a.rename, Some("x".to_string()));
}

#[test]
fn camel_case_lowers_the_first_word() {
    assert_eq!(RenameRule::CamelCase.apply("ActiveUser"), "activeUser");
    assert_eq!(to_camel_case("User_name"), "userName");
    assert_eq!(RenameRule::CamelCase.apply("id"), "id");
}

#[test]
fn multibyte_words_are_capitalized() {
    assert_eq!(RenameRule::PascalCase.apply("é_x"), "ÉX");
    assert_eq!(RenameRule::CamelCase.apply("a_é"), "aÉ");
}

#[test]
fn snake_case_undoes_camel_and_pascal_case() {
    for name in ["user_name", "created_at_time", "id_value", "ab"] {
        assert_eq!(to_snake_case(&to_camel_case(name)), name);
        assert_eq!(to_snake_case(&to_pascal_case(name)), name);
    }
}
