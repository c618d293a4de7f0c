use metadol::mcp::nl_to_dol::{NlRequirement, NlToDolConverter};
use metadol::mcp::recommendations::{ConsistencyLevel, UsagePattern};

#[test]
fn nl_to_dol_test_extract_entity_name() {
    let converter = NlToDolConverter::new();

    let name = converter.extract_entity_name("A collaborative document with a title");
    assert_eq!(name, Some("Collaborative".to_string()));

    let name = converter.extract_entity_name("The user profile has fields");
    assert_eq!(name, Some("User".to_string()));
}

#[test]
fn test_convert_simple_requirement() {
    let converter = NlToDolConverter::new();
    let requirement = NlRequirement {
        description: "A document with a title".to_string(),
        entity_name: Some("Document".to_string()),
        constraints: vec![],
    };

    let result = converter.convert(requirement);
    assert!(result.is_ok());

    let schema = result.unwrap();
    assert_eq!(schema.entity_name, "Document");
    assert!(!schema.fields.is_empty());
    assert!(schema.dol_source.contains("gen document.schema"));
}

#[test]
fn test_convert_collaborative_document() {
    let converter = NlToDolConverter::new();
    let requirement = NlRequirement {
        description:
            "A collaborative document with a title and content that users can edit together"
                .to_string(),
        entity_name: Some("Document".to_string()),
        constraints: vec![],
    };

    let result = converter.convert(requirement);
    assert!(result.is_ok());

    let schema = result.unwrap();
    let content_field = schema.fields.iter().find(|f| f.name == "content");
    assert!(content_field.is_some());

    if let Some(field) = content_field {
        assert_eq!(field.crdt_strategy, "peritext");
    }
}

#[test]
fn test_detect_usage_pattern() {
    let converter = NlToDolConverter::new();

    let (usage, _) = converter.detect_usage_pattern("collaborative editing", "content");
    assert!(matches!(usage, UsagePattern::CollaborativeText));

    let (usage, _) = converter.detect_usage_pattern("counter value", "count");
    assert!(matches!(usage, UsagePattern::Counter));

    let (usage, _) = converter.detect_usage_pattern("set of tags", "tags");
    assert!(matches!(usage, UsagePattern::MultiUserSet));
}

#[test]
fn test_detect_usage_pattern_falls_back_to_field_name() {
    let converter = NlToDolConverter::new();
    assert_eq!(
        converter.detect_usage_pattern("plain words", "id"),
        (UsagePattern::WriteOnce, ConsistencyLevel::Strong)
    );
    assert_eq!(
        converter.detect_usage_pattern("written together", "title"),
        (UsagePattern::CollaborativeText, ConsistencyLevel::Eventual)
    );
    assert_eq!(
        converter.detect_usage_pattern("plain words", "title"),
        (UsagePattern::LastWriteWins, ConsistencyLevel::Eventual)
    );
    assert_eq!(
        converter.detect_usage_pattern("real-time editing", "x"),
        (UsagePattern::CollaborativeText, ConsistencyLevel::Causal)
    );
}

#[test]
fn test_extract_entity_name_none_and_article_at_end() {
    let converter = NlToDolConverter::new();
    assert_eq!(converter.extract_entity_name("documents with titles"), None);
    assert_eq!(converter.extract_entity_name("ends with the"), None);
    assert_eq!(converter.extract_entity_name("  AN\tinvoice  "), Some("Invoice".to_string()));
}

#[test]
fn test_convert_without_entity_name_fails() {
    let converter = NlToDolConverter::new();
    let requirement = NlRequirement {
        description: "documents with titles".to_string(),
        entity_name: None,
        constraints: vec![],
    };
    assert_eq!(converter.convert(requirement).err(), Some("Could not determine entity name".to_string()));
}

#[test]
fn test_convert_default_id_field_and_metadata() {
    let converter = NlToDolConverter::new();
    let requirement = NlRequirement {
        description: "An invoice".to_string(),
        entity_name: None,
        constraints: vec!["rule one".to_string()],
    };
    let schema = converter.convert(requirement).unwrap();
    assert_eq!(schema.entity_name, "Invoice");
    assert_eq!(schema.fields.len(), 1);
    assert_eq!(schema.fields[0].name, "id");
    assert_eq!(schema.fields[0].crdt_strategy, "immutable");
    assert_eq!(schema.metadata.confidence, 90);
    assert_eq!(
        schema.metadata.warnings,
        vec!["Schema has very few fields. Consider adding more properties.".to_string()]
    );
    assert_eq!(
        schema.metadata.suggestions,
        vec!["Consider adding timestamp fields (created_at, updated_at) for audit trails.".to_string()]
    );
    assert_eq!(
        schema.dol_source,
        "gen invoice.schema {\n  invoice has id: String @crdt(immutable)\n  rule one\n}\n\nexegesis {\n  Schema for Invoice with CRDT-backed fields.\n  \n  Fields:\n  - id: String (immutable)\n    Unique identifier for the entity\n}\n"
    );
    assert_eq!(schema.constraints, vec!["rule one".to_string()]);
}

#[test]
fn test_convert_fields_in_table_order() {
    let converter = NlToDolConverter::new();
    let requirement = NlRequirement {
        description: "A task with a status, tags and a counter".to_string(),
        entity_name: None,
        constraints: vec![],
    };
    let schema = converter.convert(requirement).unwrap();
    let names: Vec<&str> = schema.fields.iter().map(|f| f.name.as_str()).collect();
    assert_eq!(names, vec!["tags", "status", "count"]);
    // "counter" names the usage of every field in this description.
    let count = schema.fields.iter().find(|f| f.name == "count").unwrap();
    assert_eq!(count.crdt_strategy, "pn_counter");
    assert_eq!(count.confidence, "High");
}

#[test]
fn test_extract_fields_lower_defaults_to_id() {
    let converter = NlToDolConverter::new();
    let fields = converter.extract_fields_lower("nothing to see here");
    assert_eq!(fields.len(), 1);
    assert_eq!(fields[0].name, "id");
    let upper = converter.extract_fields_lower("TAGS AND STATUS");
    assert_eq!(upper.len(), 1);
    assert_eq!(upper[0].name, "id");
    let found = converter.extract_fields_lower("a task with a status and tags");
    let names: Vec<&str> = found.iter().map(|f| f.name.as_str()).collect();
    assert_eq!(names, vec!["tags", "status"]);
}

#[test]
fn test_entity_name_safety_and_checked_convert() {
    let converter = NlToDolConverter::new();
    assert!(converter.entity_name_is_safe("A task with tags"));
    assert!(converter.entity_name_is_safe("no article here"));
    assert!(!converter.entity_name_is_safe("An ébauche with tags"));
    let unsafe_req = NlRequirement {
        description: "An ébauche with tags".to_string(),
        entity_name: None,
        constraints: vec![],
    };
    assert!(converter.convert_checked(unsafe_req).is_none());
    let named = NlRequirement {
        description: "An ébauche with tags".to_string(),
        entity_name: Some("Draft".to_string()),
        constraints: vec![],
    };
    let schema = converter.convert_checked(named).unwrap().unwrap();
    assert_eq!(schema.entity_name, "Draft");
    let missing = NlRequirement {
        description: "tags only".to_string(),
        entity_name: None,
        constraints: vec![],
    };
    assert_eq!(
        converter.convert_checked(missing).unwrap().unwrap_err(),
        "Could not determine entity name"
    );
}
