use metadol::ast::{CrdtAnnotation, CrdtOption, CrdtStrategy, Declaration, GenDecl, TypedField};
use metadol::mcp::diagnostics::{
    DiagnosticCategory, DiagnosticSeverity, Impact, OptimizationCategory, SchemaDiagnostics,
};

fn make_gene_with_fields(name: &str, fields: Vec<TypedField>) -> GenDecl {
    GenDecl { is_trait: false, name: name.to_string(), fields }
}

fn make_field(name: &str, ty: &str, strategy: Option<CrdtStrategy>) -> TypedField {
    TypedField {
        name: name.to_string(),
        ty: ty.to_string(),
        constraint: None,
        crdt_annotation: strategy.map(|s| CrdtAnnotation { strategy: s, options: vec![] }),
    }
}

#[test]
fn test_missing_immutable_id() {
    let gene = make_gene_with_fields(
        "User",
        vec![make_field("name", "String", Some(CrdtStrategy::Lww))],
    );

    let diagnostics = SchemaDiagnostics::strict();
    let issues = diagnostics.analyze(&Declaration::Gen(gene));

    assert!(issues.iter().any(|i| i.message.contains("immutable ID")));
}

#[test]
fn test_lww_on_collection() {
    let gene = make_gene_with_fields(
        "Document",
        vec![make_field("tags", "Set<String>", Some(CrdtStrategy::Lww))],
    );

    let diagnostics = SchemaDiagnostics::new();
    let issues = diagnostics.analyze(&Declaration::Gen(gene));

    assert!(issues
        .iter()
        .any(|i| i.category == DiagnosticCategory::AntiPattern));
}

#[test]
fn test_peritext_without_max_length() {
    let gene = make_gene_with_fields(
        "Article",
        vec![make_field(
            "content",
            "String",
            Some(CrdtStrategy::Peritext),
        )],
    );

    let diagnostics = SchemaDiagnostics::new();
    let issues = diagnostics.analyze(&Declaration::Gen(gene));

    assert!(issues.iter().any(|i| i.message.contains("max_length")));
}

#[test]
fn test_counter_without_bounds() {
    let gene = make_gene_with_fields(
        "Post",
        vec![make_field("likes", "i32", Some(CrdtStrategy::PnCounter))],
    );

    let diagnostics = SchemaDiagnostics::strict();
    let issues = diagnostics.analyze(&Declaration::Gen(gene));

    assert!(issues.iter().any(|i| i.message.contains("bounds")));
}

#[test]
fn test_excessive_mv_registers() {
    let gene = make_gene_with_fields(
        "Config",
        vec![
            make_field("field1", "String", Some(CrdtStrategy::MvRegister)),
            make_field("field2", "String", Some(CrdtStrategy::MvRegister)),
            make_field("field3", "String", Some(CrdtStrategy::MvRegister)),
            make_field("field4", "String", Some(CrdtStrategy::MvRegister)),
        ],
    );

    let diagnostics = SchemaDiagnostics::new();
    let issues = diagnostics.analyze(&Declaration::Gen(gene));

    assert!(issues.iter().any(|i| i.message.contains("MV-Register")));
}

#[test]
fn test_suggest_optimizations() {
    let gene = make_gene_with_fields(
        "User",
        vec![
            make_field("field1", "String", Some(CrdtStrategy::Lww)),
            make_field("field2", "String", Some(CrdtStrategy::Lww)),
            make_field("field3", "String", Some(CrdtStrategy::Lww)),
            make_field("field4", "String", Some(CrdtStrategy::Lww)),
        ],
    );

    let diagnostics = SchemaDiagnostics::new();
    let optimizations = diagnostics.suggest_optimizations(&Declaration::Gen(gene));

    assert!(!optimizations.is_empty());
}

#[test]
fn test_diagnostics_exact_order_and_texts() {
    let mut bounded = make_field("score", "i64", Some(CrdtStrategy::PnCounter));
    bounded.crdt_annotation.as_mut().unwrap().options.push(CrdtOption {
        key: "min_value".to_string(),
        value: "0".to_string(),
    });
    let mut code = make_field("code", "String", Some(CrdtStrategy::Immutable));
    code.constraint = Some("unique and never update".to_string());
    let gene = make_gene_with_fields(
        "Doc",
        vec![
            make_field("items", "Vec<String>", Some(CrdtStrategy::Lww)),
            bounded,
            make_field("plain", "String", None),
            make_field("members", "Set<String>", Some(CrdtStrategy::OrSet)),
            code,
        ],
    );
    let issues = SchemaDiagnostics::strict().analyze(&Declaration::Gen(gene));
    let messages: Vec<&str> = issues.iter().map(|i| i.message.as_str()).collect();
    assert_eq!(
        messages,
        vec![
            "Gene 'Doc' should have an immutable ID field for distributed identity",
            "Gene 'Doc' has 4 CRDT fields and 1 non-CRDT fields. Consider annotating all fields for consistent replication.",
            "Field 'items' uses LWW on collection type Vec<String>. Entire collection will be replaced on conflict.",
            "OR-Set field 'members' has no size constraint",
            "Field 'code' has uniqueness constraint, which requires coordination",
            "Field 'code' is immutable but has mutable constraint",
        ]
    );
    assert_eq!(issues[5].severity, DiagnosticSeverity::Error);
    assert_eq!(issues[2].field.as_deref(), Some("items"));
    assert!(issues[0].field.is_none());
}

#[test]
fn test_diagnostics_skip_traits_and_non_strict_checks() {
    let fields = vec![make_field("n", "i32", Some(CrdtStrategy::PnCounter))];
    let as_trait = GenDecl { is_trait: true, name: "T".to_string(), fields: fields.clone() };
    assert!(SchemaDiagnostics::strict().analyze(&Declaration::Gen(as_trait)).is_empty());
    let gene = make_gene_with_fields("G", fields);
    // Without strict checking, neither the identifier nor the bounds are asked for.
    assert!(SchemaDiagnostics::new().analyze(&Declaration::Gen(gene)).is_empty());
}

#[test]
fn test_optimizations_count_distinct_names_and_updates() {
    let mut fields = vec![
        make_field("a", "String", Some(CrdtStrategy::Lww)),
        make_field("a", "String", Some(CrdtStrategy::Lww)),
        make_field("b", "String", Some(CrdtStrategy::Lww)),
        make_field("c", "String", Some(CrdtStrategy::Lww)),
    ];
    // Three distinct names: no clock suggested.
    let gene = make_gene_with_fields("G", fields.clone());
    assert!(SchemaDiagnostics::new().suggest_optimizations(&Declaration::Gen(gene)).is_empty());
    fields.push(make_field("d", "String", Some(CrdtStrategy::Lww)));
    fields.push(make_field("hits", "u64", Some(CrdtStrategy::PnCounter)));
    let gene = make_gene_with_fields("G", fields.clone());
    let opts = SchemaDiagnostics::new().suggest_optimizations(&Declaration::Gen(gene));
    assert_eq!(opts.len(), 2);
    assert_eq!(opts[0].category, OptimizationCategory::Timestamp);
    assert_eq!(
        opts[0].description,
        "Gene 'G' has 4 LWW fields but no timestamp. Consider adding an HLC for better causality tracking."
    );
    assert_eq!(opts[1].impact, Impact::High);
    assert_eq!(
        opts[1].description,
        "Gene 'G' has 6 frequently-updated fields. Consider batching updates to reduce sync overhead."
    );
    // A field that mentions a time removes the clock suggestion.
    fields.push(make_field("updated_time", "i64", None));
    let gene = make_gene_with_fields("G", fields);
    let opts = SchemaDiagnostics::new().suggest_optimizations(&Declaration::Gen(gene));
    assert_eq!(opts.len(), 1);
    assert_eq!(opts[0].title, "Batch Updates");
}
