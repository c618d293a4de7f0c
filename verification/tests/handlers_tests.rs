use metadol::mcp::handlers::{strategy_explanation, use_case_example, ToolArgs};
use metadol::mcp::server::McpServer;

fn args(pairs: &[(&str, &str)]) -> ToolArgs {
    ToolArgs::new(pairs.iter().map(|(k, v)| (k.to_string(), v.to_string())).collect())
}

#[test]
fn test_tool_args_lookup() {
    let a = args(&[("x", "1"), ("y", "2"), ("x", "3")]);
    assert_eq!(a.get_string("x"), Ok("1".to_string()));
    assert_eq!(a.get_optional_string("y"), Some("2".to_string()));
    assert_eq!(a.get_optional_string("z"), None);
    assert_eq!(a.get_string("z"), Err("Missing or invalid argument: z".to_string()));
}

#[test]
fn test_recommend_crdt_text() {
    let server = McpServer::new();
    let result = server
        .tool_recommend_crdt(args(&[
            ("field_name", "likes"),
            ("field_type", "i32"),
            ("usage_pattern", "counter"),
        ]))
        .unwrap();
    assert_eq!(result.content_type, "text/plain");
    assert!(result.content.starts_with("Recommended Strategy: pn_counter\nConfidence: high\n"));
    assert!(result.content.contains("\nExample: "));
}

#[test]
fn test_recommend_crdt_errors() {
    let server = McpServer::new();
    assert_eq!(
        server.tool_recommend_crdt(args(&[("field_name", "a")])).err(),
        Some("Missing or invalid argument: field_type".to_string())
    );
    assert_eq!(
        server
            .tool_recommend_crdt(args(&[
                ("field_name", "a"),
                ("field_type", "String"),
                ("usage_pattern", "sometimes"),
            ]))
            .err(),
        Some("Invalid usage pattern: sometimes".to_string())
    );
    assert_eq!(
        server
            .tool_recommend_crdt(args(&[
                ("field_name", "a"),
                ("field_type", "String"),
                ("usage_pattern", "counter"),
                ("consistency_requirement", "linear"),
            ]))
            .err(),
        Some("Invalid consistency level: linear".to_string())
    );
}

#[test]
fn test_explain_strategy() {
    let server = McpServer::new();
    let text = server.tool_explain_strategy(args(&[("strategy", "lww")])).unwrap().content;
    assert!(text.starts_with("Last-Write-Wins (LWW) Strategy:\n- Most recent write wins"));
    assert_eq!(
        server.tool_explain_strategy(args(&[("strategy", "magic")])).err(),
        Some("Unknown strategy: magic".to_string())
    );
    for name in ["immutable", "lww", "peritext", "or_set", "pn_counter", "rga", "mv_register"] {
        assert!(strategy_explanation(name).is_some());
    }
}

#[test]
fn test_generate_example() {
    let server = McpServer::new();
    let text = server.tool_generate_example(args(&[])).unwrap().content;
    assert!(text.starts_with("gen message.chat {"));
    assert_eq!(use_case_example("counter").map(|t| t.starts_with("gen post.social")), Some(true));
    assert_eq!(
        server.tool_generate_example(args(&[("use_case", "x")])).err(),
        Some("Unknown use case: x".to_string())
    );
}

#[test]
fn test_format_and_wasm_not_implemented() {
    let server = McpServer::new();
    assert_eq!(
        server.tool_format(args(&[])).err(),
        Some("DOL source formatting is not yet implemented".to_string())
    );
    assert_eq!(
        server.tool_compile_wasm(args(&[])).err(),
        Some("WebAssembly compilation is not yet implemented".to_string())
    );
}

#[test]
fn test_generate_schema_from_description() {
    let server = McpServer::new();
    let text = server
        .tool_generate_schema_from_description(args(&[
            ("description", "A note"),
            ("constraints", " rule a ,rule b"),
        ]))
        .unwrap()
        .content;
    assert!(text.starts_with("gen note.schema {\n  note has id: String @crdt(immutable)\n  rule a\n  rule b\n}"));
    assert_eq!(
        server.tool_generate_schema_from_description(args(&[("description", "notes")])).err(),
        Some("Schema generation error: Could not determine entity name".to_string())
    );
    assert_eq!(
        server.tool_generate_schema_from_description(args(&[])).err(),
        Some("Missing or invalid argument: description".to_string())
    );
}
