use cargo_mercury::generation::{
    build_type_to_module_map, group_types_by_module, module_file_name,
    source_path_to_module_name, to_pascal_case,
};
use cargo_mercury::plan::{collect_definitions, plan_generation};
use cargo_mercury::serde_attrs::SerdeAttrs;
use cargo_mercury::sources::{order_by_source_path, SourceFile};
use cargo_mercury::types::{EnumType, TypeDefinition, TypeKind};
use cargo_mercury::MercuryError;

fn enum_def(name: &str, file: &str) -> TypeDefinition {
    TypeDefinition {
        name: name.to_string(),
        source_file: file.to_string(),
        line: 1,
        kind: TypeKind::Enum(EnumType { variants: vec![], rename_all: None }),
        serde_attrs: SerdeAttrs::default(),
    }
}

fn source(path: &str, contents: &str) -> SourceFile {
    SourceFile { path: path.to_string(), contents: contents.to_string() }
}

#[test]
fn module_names_from_paths() {
    assert_eq!(source_path_to_module_name("app/backend/src/models.rs", "."), "Generated.Models");
    assert_eq!(
        source_path_to_module_name("lib/constitution/src/models/merchant.rs", "."),
        "Generated.Merchant"
    );
    assert_eq!(source_path_to_module_name("test-mercury/test.rs", "."), "Generated.Test");
    assert_eq!(
        source_path_to_module_name("src/user_accounts.rs", "."),
        "Generated.UserAccounts"
    );
    assert_eq!(source_path_to_module_name("", "."), "Generated.Unknown");
}

#[test]
fn pascal_case_of_module_words() {
    assert_eq!(to_pascal_case("user_models"), "UserModels");
    assert_eq!(to_pascal_case("models"), "Models");
    assert_eq!(to_pascal_case("a__b"), "AB");
    assert_eq!(to_pascal_case("ßtraße"), "SStraße");
}

#[test]
fn file_names_of_modules() {
    assert_eq!(module_file_name("Generated.Models"), "Generated/Models.purs");
    assert_eq!(module_file_name("Generated.Product.Core"), "Generated/Product/Core.purs");
}

#[test]
fn groups_are_sorted_and_keep_input_order() {
    let defs = vec![
        enum_def("Zebra", "b/orders.rs"),
        enum_def("Apple", "a/models.rs"),
        enum_def("Mango", "c/orders.rs"),
        enum_def("Kiwi", "c/models.rs"),
    ];
    let groups = group_types_by_module(&defs, ".");
    assert_eq!(groups.len(), 2);
    assert_eq!(groups[0].name, "Generated.Models");
    assert_eq!(groups[1].name, "Generated.Orders");
    let names = |i: usize| groups[i].types.iter().map(|d| d.name.clone()).collect::<Vec<_>>();
    assert_eq!(names(0), vec!["Apple", "Kiwi"]);
    assert_eq!(names(1), vec!["Zebra", "Mango"]);

    let map = build_type_to_module_map(&groups);
    assert_eq!(map.get("Kiwi"), Some("Generated.Models".to_string()));
    assert_eq!(map.get("Mango"), Some("Generated.Orders".to_string()));
    assert_eq!(map.get("Pear"), None);
}

#[test]
fn later_module_wins_for_a_repeated_type_name() {
    let defs = vec![enum_def("Status", "x/zeta.rs"), enum_def("Status", "y/alpha.rs")];
    let groups = group_types_by_module(&defs, ".");
    assert_eq!(groups[0].name, "Generated.Alpha");
    assert_eq!(groups[1].name, "Generated.Zeta");
    let map = build_type_to_module_map(&groups);
    assert_eq!(map.get("Status"), Some("Generated.Zeta".to_string()));
}

#[test]
fn no_definitions_no_groups() {
    let groups = group_types_by_module(&[], ".");
    assert!(groups.is_empty());
    assert_eq!(build_type_to_module_map(&groups).get("A"), None);
}

#[test]
fn sources_are_ordered_by_path_components() {
    let files = vec![
        source("zzz_crate/src/models.rs", ""),
        source("a-b/x.rs", ""),
        source("a/b.rs", ""),
        source("aaa_crate/src/models.rs", ""),
    ];
    let sorted = order_by_source_path(&files);
    let paths: Vec<_> = sorted.iter().map(|f| f.path.clone()).collect();
    assert_eq!(
        paths,
        vec!["a/b.rs", "a-b/x.rs", "aaa_crate/src/models.rs", "zzz_crate/src/models.rs"]
    );
}

#[test]
fn output_follows_source_path_not_type_name() {
    let files = vec![
        source("zzz_crate/src/models.rs", "#[mercury]\npub struct Apple {\n    pub id: i32,\n}\n"),
        source("aaa_crate/src/models.rs", "#[mercury]\npub struct Zebra {\n    pub id: i32,\n}\n"),
    ];
    let plan = plan_generation(&files, ".").unwrap();
    assert_eq!(plan.type_count, 2);
    assert_eq!(plan.modules.len(), 1, "same basename collapses to one module");
    assert_eq!(plan.modules[0].name, "Generated.Models");
    assert_eq!(plan.modules[0].types[0].name, "Zebra");
    assert_eq!(plan.modules[0].types[1].name, "Apple");
    assert_eq!(plan.file_names, vec!["Generated/Models.purs".to_string()]);
    assert_eq!(plan.type_to_module.get("Apple"), Some("Generated.Models".to_string()));
}

#[test]
fn empty_workspace_plan() {
    let plan = plan_generation(&vec![], ".").unwrap();
    assert_eq!(plan.type_count, 0);
    assert!(plan.modules.is_empty());
}

#[test]
fn first_unparsable_file_in_path_order_is_reported() {
    let files = vec![
        source("b.rs", "struct {"),
        source("a.rs", "fn ("),
        source("0.rs", "#[mercury] pub enum E { A }"),
    ];
    match collect_definitions(&files) {
        Err(MercuryError::ParseError { file, .. }) => assert_eq!(file, "a.rs"),
        other => panic!("expected a parse error, got {:?}", other),
    }
}

#[test]
fn plans_are_deterministic_and_count_every_type() {
    let files = vec![
        source("b/orders.rs", "#[mercury]\npub enum Status { Open, Closed }\n#[mercury]\npub struct Order { pub id: i32, pub status: Status }\n"),
        source("a/models.rs", "#[mercury]\npub struct User { pub name: String }\n"),
        source("c/models.rs", "#[mercury]\npub struct Admin { pub user: User }\n"),
    ];
    let first = plan_generation(&files, ".").unwrap();
    let second = plan_generation(&files, ".").unwrap();
    let summary = |p: &cargo_mercury::plan::GenerationPlan| {
        p.modules
            .iter()
            .map(|m| (m.name.clone(), m.types.iter().map(|t| t.name.clone()).collect::<Vec<_>>()))
            .collect::<Vec<_>>()
    };
    assert_eq!(summary(&first), summary(&second));
    assert_eq!(first.file_names, second.file_names);
    assert_eq!(
        summary(&first),
        vec![
            ("Generated.Models".to_string(), vec!["User".to_string(), "Admin".to_string()]),
            ("Generated.Orders".to_string(), vec!["Status".to_string(), "Order".to_string()]),
        ]
    );
    let total: usize = first.modules.iter().map(|m| m.types.len()).sum();
    assert_eq!(total, first.type_count);
    assert_eq!(first.type_count, 4);
    assert_eq!(first.type_to_module.get("Status"), Some("Generated.Orders".to_string()));
}

#[test]
fn module_names_follow_directories_below_models() {
    assert_eq!(
        source_path_to_module_name("lib/constitution/src/models/product/core.rs", "."),
        "Generated.Product.Core"
    );
    assert_eq!(
        source_path_to_module_name("lib/constitution/src/models/product/variant.rs", "."),
        "Generated.Product.Variant"
    );
    assert_eq!(
        source_path_to_module_name("app/src/api/user_models.rs", "."),
        "Generated.Api.UserModels"
    );
    assert_eq!(
        module_file_name("Generated.Product.Core"),
        "Generated/Product/Core.purs"
    );
}
