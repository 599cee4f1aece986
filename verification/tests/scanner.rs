use cargo_mercury::scanner::{is_excluded, is_rust_source, AnnotationScanner};

#[test]
fn test_is_excluded() {
    assert!(is_excluded("target/debug/foo.rs"));
    assert!(is_excluded(".git/config"));
    assert!(is_excluded("node_modules/pkg/index.js"));
    assert!(is_excluded("frontend/src/Main.purs"));

    assert!(!is_excluded("src/main.rs"));
    assert!(!is_excluded("lib/mercury/src/lib.rs"));
}

#[test]
fn excluded_names_match_whole_components() {
    assert!(is_excluded("app/dist/out.rs"));
    assert!(is_excluded("/home/me/build/x.rs"));
    assert!(!is_excluded("src/builder.rs"));
    assert!(!is_excluded("targets/x.rs"));
}

#[test]
fn rust_sources_by_extension() {
    assert!(is_rust_source("src/lib.rs"));
    assert!(!is_rust_source("src/Main.purs"));
    assert!(!is_rust_source("Makefile"));
}

#[test]
fn counts_annotations() {
    let scanner = AnnotationScanner::new().unwrap();
    assert_eq!(scanner.count("#[mercury]\npub struct A;\n# [ mercury ]\npub enum B {}"), 2);
    assert_eq!(scanner.count("pub struct Foo { pub id: i32 }"), 0);
    let f = scanner.annotated_file("src/a.rs", "#[mercury] struct A;").unwrap();
    assert_eq!(f.path, "src/a.rs");
    assert_eq!(f.annotation_count, 1);
    assert!(scanner.annotated_file("src/b.rs", "struct B;").is_none());
}
