use metadol::mcp::recommendations::UsagePattern;
use metadol::mcp::schema_generator::{FieldSpec, GenerationOptions, SchemaGenerator};

#[test]
fn test_infer_type() {
    let generator = SchemaGenerator::new();

    assert_eq!(generator.infer_type("title", ""), "String");
    assert_eq!(generator.infer_type("count", ""), "i32");
    assert_eq!(generator.infer_type("price", "a decimal value"), "f64");
    assert_eq!(generator.infer_type("tags", ""), "Set<String>");
}

#[test]
fn test_infer_usage_pattern() {
    let generator = SchemaGenerator::new();

    let pattern = generator.infer_usage_pattern("collaborative editing");
    assert!(matches!(pattern, UsagePattern::CollaborativeText));

    let pattern = generator.infer_usage_pattern("counter value");
    assert!(matches!(pattern, UsagePattern::Counter));

    let pattern = generator.infer_usage_pattern("unique items in a set");
    assert!(matches!(pattern, UsagePattern::MultiUserSet));
}

#[test]
fn test_generate_field_definition() {
    let generator = SchemaGenerator::new();
    let spec = FieldSpec {
        name: "title".to_string(),
        description: "Document title".to_string(),
        required: true,
        unique: false,
    };

    let field = generator.generate_field_definition(&spec);
    assert_eq!(field.name, "title");
    assert_eq!(field.field_type, "String");
    assert!(field.constraints.contains(&"required".to_string()));
}

#[test]
fn test_generate_schema() {
    let generator = SchemaGenerator::new();
    let fields = vec![
        FieldSpec {
            name: "title".to_string(),
            description: "Document title".to_string(),
            required: true,
            unique: false,
        },
        FieldSpec {
            name: "content".to_string(),
            description: "Collaborative document content".to_string(),
            required: true,
            unique: false,
        },
    ];

    let result = generator.generate_schema("Document", fields, GenerationOptions::default());

    assert!(result.is_ok());
    let source = result.unwrap();
    assert!(source.contains("gen document.schema"));
    assert!(source.contains("has title"));
    assert!(source.contains("has content"));
    assert!(source.contains("exegesis"));
}

#[test]
fn test_infer_type_defaults_and_case() {
    let generator = SchemaGenerator::new();
    assert_eq!(generator.infer_type("price", "what it costs"), "String");
    assert_eq!(generator.infer_type("IsFlagged", ""), "bool");
    assert_eq!(generator.infer_type("x", "A TIMESTAMP"), "i64");
}

#[test]
fn test_infer_usage_pattern_default() {
    let generator = SchemaGenerator::new();
    assert_eq!(generator.infer_usage_pattern("plain"), UsagePattern::LastWriteWins);
    assert_eq!(generator.infer_usage_pattern("Write Once"), UsagePattern::WriteOnce);
    assert_eq!(generator.infer_usage_pattern("an ordered queue"), UsagePattern::OrderedList);
}

#[test]
fn test_unique_field_constraints() {
    let generator = SchemaGenerator::new();
    let spec = FieldSpec {
        name: "slug".to_string(),
        description: "".to_string(),
        required: false,
        unique: true,
    };
    let field = generator.generate_field_definition(&spec);
    assert_eq!(field.field_type, "String");
    assert_eq!(field.constraints, vec!["unique".to_string(), "non_empty".to_string()]);
    assert_eq!(field.crdt_strategy, "lww");
}

#[test]
fn test_generate_schema_without_extras() {
    let generator = SchemaGenerator::new();
    let options = GenerationOptions {
        include_audit_fields: false,
        include_id_field: false,
        default_consistency: metadol::mcp::recommendations::ConsistencyLevel::Eventual,
        generate_exegesis: false,
    };
    let fields = vec![FieldSpec {
        name: "count".to_string(),
        description: "".to_string(),
        required: false,
        unique: false,
    }];
    let source = generator.generate_schema("Tally", fields, options).unwrap();
    assert_eq!(source, "gen tally.schema {\n  tally has count: i32 @crdt(lww)\n}\n\n");
}

#[test]
fn test_generate_schema_full_text() {
    let generator = SchemaGenerator::new();
    let source = generator
        .generate_schema("Note", Vec::new(), GenerationOptions::default())
        .unwrap();
    assert_eq!(
        source,
        "gen note.schema {\n  note has id: String @crdt(immutable) // required, unique\n  note has created_at: i64 @crdt(immutable) // required\n  note has updated_at: i64 @crdt(lww) // required\n}\n\nexegesis {\n  CRDT-backed schema for Note.\n\n  Fields:\n  - id: String (immutable)\n    Unique identifier for the entity\n  - created_at: i64 (immutable)\n    Timestamp when the entity was created\n  - updated_at: i64 (lww)\n    Timestamp when the entity was last updated\n}\n"
    );
}

#[test]
fn test_infer_type_lower_name_before_description() {
    let generator = SchemaGenerator::new();
    assert_eq!(generator.infer_type_lower("tags", "a count"), "Set<String>");
    assert_eq!(generator.infer_type_lower("views", "a count of views"), "i32");
    assert_eq!(generator.infer_type_lower("views", "plain"), "String");
    // Upper-case text is not lowered here: "TAGS" has no keyword.
    assert_eq!(generator.infer_type_lower("TAGS", ""), "String");
}

#[test]
fn test_usage_from_lower_order() {
    let generator = SchemaGenerator::new();
    assert_eq!(generator.usage_from_lower("a real-time counter"), UsagePattern::CollaborativeText);
    assert_eq!(generator.usage_from_lower("an ordered list"), UsagePattern::OrderedList);
    assert_eq!(generator.usage_from_lower("read-only"), UsagePattern::WriteOnce);
    assert_eq!(generator.usage_from_lower("COUNTER"), UsagePattern::LastWriteWins);
}
