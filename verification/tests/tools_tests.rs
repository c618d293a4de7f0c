use metadol::ast::{CrdtStrategy, TypeExpr};
use metadol::mcp::tools::{format_strategy, format_type, is_collection_type, is_numeric_type, is_string_type};
use metadol::mcp::DolTool;

#[test]
fn test_format_strategy() {
    assert_eq!(format_strategy(&CrdtStrategy::Immutable), "immutable");
    assert_eq!(format_strategy(&CrdtStrategy::Lww), "lww");
    assert_eq!(format_strategy(&CrdtStrategy::Peritext), "peritext");
}

#[test]
fn test_format_type_simple() {
    let type_expr = TypeExpr::Named("String".to_string());
    assert_eq!(format_type(&type_expr), "String");
}

#[test]
fn test_format_type_generic() {
    let type_expr = TypeExpr::Generic {
        name: "Set".to_string(),
        args: vec![TypeExpr::Named("String".to_string())],
    };
    assert_eq!(format_type(&type_expr), "Set<String>");
}

#[test]
fn test_is_collection_type() {
    let set_type = TypeExpr::Generic { name: "Set".to_string(), args: vec![] };
    assert!(is_collection_type(&set_type));
    let string_type = TypeExpr::Named("String".to_string());
    assert!(!is_collection_type(&string_type));
}

#[test]
fn test_is_numeric_type() {
    assert!(is_numeric_type(&TypeExpr::Named("i32".to_string())));
    assert!(is_numeric_type(&TypeExpr::Named("f64".to_string())));
    assert!(!is_numeric_type(&TypeExpr::Named("String".to_string())));
}

#[test]
fn test_is_string_type() {
    assert!(is_string_type(&TypeExpr::Named("String".to_string())));
    assert!(is_string_type(&TypeExpr::Named("string".to_string())));
    assert!(!is_string_type(&TypeExpr::Named("i32".to_string())));
}

#[test]
fn format_type_nested_forms() {
    let f = TypeExpr::Function {
        params: vec![TypeExpr::Named("A".to_string()), TypeExpr::Named("B".to_string())],
        return_type: Box::new(TypeExpr::Generic {
            name: "Map".to_string(),
            args: vec![TypeExpr::Named("K".to_string()), TypeExpr::Tuple(vec![])],
        }),
    };
    assert_eq!(format_type(&f), "(A, B) -> Map<K, ()>");
    assert_eq!(format_type(&TypeExpr::Never), "!");
    assert_eq!(format_type(&TypeExpr::Enum { variants: vec!["A".to_string()] }), "enum { ... }");
}

#[test]
fn tool_names_round_trip() {
    let tools = [
        DolTool::Parse,
        DolTool::TypeCheck,
        DolTool::CompileRust,
        DolTool::CompileTypeScript,
        DolTool::CompileWasm,
        DolTool::Eval,
        DolTool::Reflect,
        DolTool::Format,
        DolTool::ListMacros,
        DolTool::ExpandMacro,
        DolTool::ValidateSchema,
        DolTool::RecommendCrdt,
        DolTool::ExplainStrategy,
        DolTool::GenerateExample,
        DolTool::GenerateSchemaFromDescription,
        DolTool::ValidateAndSuggest,
        DolTool::GetSuggestions,
    ];
    for t in tools {
        assert_eq!(DolTool::from_name(t.as_str()), Some(t));
    }
    assert_eq!(DolTool::from_name("unknown"), None);
    assert_eq!(DolTool::RecommendCrdt.as_str(), "recommend_crdt");
}
