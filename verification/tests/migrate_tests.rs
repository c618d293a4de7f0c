use metadol::migrate::{migrate_v02_to_v03, migrate_v07_to_v08, MigrationResult};

// v0.2 to v0.3 tests
#[test]
fn test_v02_migrate_let_to_val() {
    let (result, changes) = migrate_v02_to_v03("let x = 42");
    assert_eq!(result, "val x = 42");
    assert!(!changes.is_empty());
}

#[test]
fn test_v02_migrate_let_mut_to_var() {
    let (result, _) = migrate_v02_to_v03("let mut counter = 0");
    assert_eq!(result, "var counter = 0");
}

#[test]
fn test_v02_migrate_module_to_mod() {
    let (result, _) = migrate_v02_to_v03("module dol.parser @ 0.3.0");
    assert_eq!(result, "mod dol.parser @ 0.3.0");
}

// v0.7 to v0.8 tests
#[test]
fn test_v08_migrate_gene_to_gen() {
    let (result, changes) = migrate_v07_to_v08("gene container.exists {", false);
    assert_eq!(result, "gen container.exists {");
    assert!(changes.contains(&"gene → gen".to_string()));
}

#[test]
fn test_v08_migrate_constraint_to_rule() {
    let (result, _) = migrate_v07_to_v08("constraint must_exist {", false);
    assert_eq!(result, "rule must_exist {");
}

#[test]
fn test_v08_migrate_exegesis_to_docs() {
    let (result, _) = migrate_v07_to_v08("exegesis {", false);
    assert_eq!(result, "docs {");
}

#[test]
fn test_v08_migrate_evolves_to_evo() {
    let (result, _) = migrate_v07_to_v08("evolves 0.1.0 -> 0.2.0", false);
    assert_eq!(result, "evo 0.1.0 -> 0.2.0");
}

#[test]
fn test_v08_migrate_int_types() {
    let (result, _) = migrate_v07_to_v08("val x: Int32 = 42", false);
    assert_eq!(result, "val x: i32 = 42");

    let (result, _) = migrate_v07_to_v08("val y: UInt64 = 100", false);
    assert_eq!(result, "val y: u64 = 100");
}

#[test]
fn test_v08_migrate_float_types() {
    let (result, _) = migrate_v07_to_v08("val x: Float32 = 3.14", false);
    assert_eq!(result, "val x: f32 = 3.14");

    let (result, _) = migrate_v07_to_v08("val y: Float64 = 2.718", false);
    assert_eq!(result, "val y: f64 = 2.718");
}

#[test]
fn test_v08_migrate_bool_and_string() {
    let (result, _) = migrate_v07_to_v08("val flag: Bool = true", false);
    assert_eq!(result, "val flag: bool = true");

    let (result, _) = migrate_v07_to_v08("val name: String = \"test\"", false);
    assert_eq!(result, "val name: string = \"test\"");
}

#[test]
fn test_v08_migrate_void_type() {
    let (result, _) = migrate_v07_to_v08("fun action() -> Void {", false);
    assert_eq!(result, "fun action() -> () {");
}

#[test]
fn test_v08_migrate_list_type() {
    let (result, _) = migrate_v07_to_v08("val items: List<Int32>", false);
    assert_eq!(result, "val items: Vec<i32>");
}

#[test]
fn test_v08_migrate_optional_type() {
    let (result, _) = migrate_v07_to_v08("val maybe: Optional<String>", false);
    assert_eq!(result, "val maybe: Option<string>");
}

#[test]
fn test_v08_migrate_nested_generics() {
    let (result, _) = migrate_v07_to_v08("val data: List<Optional<Int32>>", false);
    assert_eq!(result, "val data: Vec<Option<i32>>");
}

#[test]
fn test_v08_migrate_return_modernization() {
    let source = r#"fun calc() -> Int32 {
return 42
}"#;
    let (result, changes) = migrate_v07_to_v08(source, true);
    assert!(result.contains("42\n}"));
    assert!(!result.contains("return 42"));
    assert!(changes.iter().any(|c| c.contains("return")));
}

#[test]
fn test_v08_full_migration() {
    let source = r#"gene container.exists {
container has identity: String
container has status: Int32
}

exegesis {
A container is the fundamental unit.
}

constraint must_have_id {
container.identity never empty
}

fun get_status() -> Int32 {
return status
}
"#;
    let (result, _) = migrate_v07_to_v08(source, true);

    assert!(result.contains("gen container.exists"));
    assert!(result.contains("docs {"));
    assert!(result.contains("rule must_have_id"));
    assert!(result.contains("identity: string"));
    assert!(result.contains("status: i32"));
    assert!(result.contains("-> i32"));
    assert!(!result.contains("return status"));
}

#[test]
fn test_v08_no_partial_matches() {
    // Ensure we don't match partial words
    let (result, _) = migrate_v07_to_v08("val gene_name = \"test\"", false);
    // Should not change gene_name to gen_name
    assert!(result.contains("gene_name"));
}

#[test]
fn test_v08_changes_in_rule_order() {
    let (result, changes) = migrate_v07_to_v08("gene a { has x: Int32 }", false);
    assert_eq!(result, "gen a { has x: i32 }");
    assert_eq!(changes, vec!["gene → gen".to_string(), "Int32 → i32".to_string()]);
}

#[test]
fn test_v08_no_rule_matches_leaves_text() {
    let (result, changes) = migrate_v07_to_v08("gen a { has x: i32 }", true);
    assert_eq!(result, "gen a { has x: i32 }");
    assert!(changes.is_empty());
}

#[test]
fn test_v02_change_records_pattern() {
    let (_, changes) = migrate_v02_to_v03("x never y");
    assert_eq!(changes, vec![r"\bnever\s+ -> not ".to_string()]);
}

#[test]
fn test_try_migrations_compile() {
    let (a, _) = metadol::migrate::try_migrate_v07_to_v08("gene x", true).unwrap();
    assert_eq!(a, "gen x");
    let (b, _) = metadol::migrate::try_migrate_v02_to_v03("let x = 1").unwrap();
    assert_eq!(b, "val x = 1");
}

#[test]
fn test_migration_result_diff() {
    let unchanged = MigrationResult {
        path: "a.dol".to_string(),
        original: "same\n".to_string(),
        migrated: "same\n".to_string(),
        changes: Vec::new(),
    };
    assert!(!unchanged.has_changes());
    assert_eq!(unchanged.generate_diff(), "");

    let changed = MigrationResult {
        path: "b.dol".to_string(),
        original: "gene x {\nkeep\r\nInt32\n".to_string(),
        migrated: "gen x {\nkeep\ni32\nextra".to_string(),
        changes: vec!["gene → gen".to_string()],
    };
    assert!(changed.has_changes());
    assert_eq!(
        changed.generate_diff(),
        "--- b.dol\n+++ b.dol\n   1 - gene x {\n   1 + gen x {\n   3 - Int32\n   3 + i32\n"
    );
}
