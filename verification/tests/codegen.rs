use cargo_mercury::codegen::generate_module;
use cargo_mercury::generation::{build_type_to_module_map, group_types_by_module};
use cargo_mercury::plan::plan_generation;
use cargo_mercury::serde_attrs::SerdeAttrs;
use cargo_mercury::sources::SourceFile;
use cargo_mercury::types::{
    EnumType, EnumVariant, Field, RustType, StructType, TypeDefinition, TypeKind,
};

fn struct_def(name: &str, file: &str, fields: Vec<Field>) -> TypeDefinition {
    TypeDefinition {
        name: name.to_string(),
        source_file: file.to_string(),
        line: 1,
        kind: TypeKind::Struct(StructType { fields, rename_all: None }),
        serde_attrs: SerdeAttrs::default(),
    }
}

fn field(name: &str, t: RustType) -> Field {
    Field { rust_name: name.to_string(), json_name: name.to_string(), field_type: t }
}

#[test]
fn module_with_cross_module_import() {
    let role = TypeDefinition {
        name: "MerchantRole".to_string(),
        source_file: "lib/constitution/src/models/merchant.rs".to_string(),
        line: 1,
        kind: TypeKind::Enum(EnumType {
            variants: vec![
                EnumVariant { rust_name: "Merchant".to_string(), json_name: "Merchant".to_string() },
                EnumVariant { rust_name: "Admin".to_string(), json_name: "Admin".to_string() },
            ],
            rename_all: None,
        }),
        serde_attrs: SerdeAttrs::default(),
    };
    let info = struct_def(
        "MerchantInfo",
        "app/backend/src/models.rs",
        vec![
            field("role", RustType::Custom("MerchantRole".to_string())),
            field("roles", RustType::Vec(Box::new(RustType::Option(Box::new(RustType::Custom(
                "MerchantRole".to_string(),
            )))))),
        ],
    );
    let defs = vec![role, info];
    let groups = group_types_by_module(&defs, ".");
    let map = build_type_to_module_map(&groups);
    assert_eq!(groups[0].name, "Generated.Merchant");
    assert_eq!(groups[1].name, "Generated.Models");

    let code = generate_module(&groups[1].name, &groups[1].types, &map);
    assert!(code.starts_with("module Generated.Models where\n\nimport Prelude\n"));
    // One import, though the type is mentioned twice.
    assert_eq!(code.matches("import Generated.Merchant (MerchantRole)\n").count(), 1);
    assert!(code.contains(
        "newtype MerchantInfo = MerchantInfo\n  { role :: MerchantRole\n  , roles :: Array (Maybe MerchantRole)\n  }\n"
    ));
    assert!(code.contains("instance decodeMerchantInfo :: DecodeJson MerchantInfo where"));
    assert!(!code.contains("import Data.UUID"));

    let code = generate_module(&groups[0].name, &groups[0].types, &map);
    assert!(code.contains("data MerchantRole\n  = Merchant\n  | Admin\n"));
    assert!(!code.contains("import Generated."));
}

#[test]
fn uuid_import_only_where_used() {
    let d = struct_def("Item", "src/item.rs", vec![field("id", RustType::Option(Box::new(RustType::Uuid)))]);
    let defs = vec![d];
    let groups = group_types_by_module(&defs, ".");
    let map = build_type_to_module_map(&groups);
    let code = generate_module(&groups[0].name, &groups[0].types, &map);
    assert!(code.contains("import Data.UUID (UUID)\n"));
    assert!(code.contains("  { id :: Maybe UUID\n  }\n"));
    let empty = struct_def("Empty", "src/item.rs", vec![]);
    let groups = group_types_by_module(&vec![empty], ".");
    let code = generate_module(&groups[0].name, &groups[0].types, &map);
    assert!(code.contains("newtype Empty = Empty\n  {}\n"));
}

#[test]
fn imports_are_consolidated_and_sorted() {
    let mk_enum = |name: &str, file: &str| TypeDefinition {
        name: name.to_string(),
        source_file: file.to_string(),
        line: 1,
        kind: TypeKind::Enum(EnumType { variants: vec![], rename_all: None }),
        serde_attrs: SerdeAttrs::default(),
    };
    let user = struct_def(
        "User",
        "src/models.rs",
        vec![
            field("status", RustType::Custom("Status".to_string())),
            field("role", RustType::Custom("Role".to_string())),
            field("address", RustType::Custom("Address".to_string())),
            field("other", RustType::Custom("Unknown".to_string())),
        ],
    );
    let defs = vec![
        user,
        mk_enum("Status", "src/zeta.rs"),
        mk_enum("Role", "src/zeta.rs"),
        mk_enum("Address", "src/alpha.rs"),
    ];
    let groups = group_types_by_module(&defs, ".");
    let map = build_type_to_module_map(&groups);
    let models = groups.iter().find(|g| g.name == "Generated.Models").unwrap();
    let code = generate_module(&models.name, &models.types, &map);
    assert!(code.contains(
        "import Data.Maybe (Maybe(..))\nimport Generated.Alpha (Address)\nimport Generated.Zeta (Role, Status)\n\nnewtype User"
    ));
    assert!(!code.contains("Unknown)"));
}

#[test]
fn two_runs_write_the_same_modules() {
    let files = vec![
        SourceFile {
            path: "zzz/src/models.rs".to_string(),
            contents: "#[mercury]\npub struct Apple { pub pair: (i32, i32), pub tag: &'static str }\n".to_string(),
        },
        SourceFile {
            path: "aaa/src/models.rs".to_string(),
            contents: "#[mercury]\npub struct Zebra { pub id: i32 }\n".to_string(),
        },
    ];
    let render = || {
        let plan = plan_generation(&files, ".").unwrap();
        plan.modules
            .iter()
            .map(|m| generate_module(&m.name, &m.types, &plan.type_to_module))
            .collect::<Vec<String>>()
    };
    let first = render();
    let second = render();
    assert_eq!(first, second);
    assert_eq!(first.len(), 1);
    let zebra = first[0].find("Zebra").unwrap();
    let apple = first[0].find("Apple").unwrap();
    assert!(zebra < apple);
}
