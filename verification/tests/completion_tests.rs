use std::time::Instant;
use metadol::lsp::completion::{CompletionContext, CompletionItemKind, CompletionProvider};
use metadol::lsp::DolLspServer;

#[test]
fn test_analyze_context_top_level() {
    let provider = CompletionProvider::new();
    let context = provider.analyze_context("", 0);
    assert_eq!(context, CompletionContext::TopLevel);
}

#[test]
fn test_analyze_context_field_name() {
    let provider = CompletionProvider::new();
    let source = "gen document.schema { document has ";
    let context = provider.analyze_context(source, source.len());
    assert_eq!(context, CompletionContext::FieldName);
}

#[test]
fn test_analyze_context_crdt_strategy() {
    let provider = CompletionProvider::new();
    let source = "gen doc.schema { doc has title: String @crdt(";
    let context = provider.analyze_context(source, source.len());
    assert_eq!(context, CompletionContext::CrdtStrategy);
}

#[test]
fn test_complete_keywords() {
    let provider = CompletionProvider::new();
    let completions = provider.complete_keywords();
    assert!(!completions.is_empty());
    assert!(completions.iter().any(|c| c.label == "gen"));
}

#[test]
fn test_complete_field_names() {
    let provider = CompletionProvider::new();
    let source = "gen document.schema { document has ";
    let completions = provider.complete_field_names(source);
    assert!(!completions.is_empty());
    assert!(completions.iter().any(|c| c.label == "title"));
    assert!(completions.iter().any(|c| c.label == "content"));
}

#[test]
fn test_complete_crdt_strategies() {
    let provider = CompletionProvider::new();
    let completions = provider.complete_crdt_strategies("");
    assert!(!completions.is_empty());
    assert!(completions.iter().any(|c| c.label == "lww"));
    assert!(completions.iter().any(|c| c.label == "peritext"));
    assert!(completions.iter().any(|c| c.label == "or_set"));
}

#[test]
fn completion_test_extract_entity_name() {
    let provider = CompletionProvider::new();

    let entity = provider.extract_entity_name("gen document.schema {");
    assert_eq!(entity, Some("document".to_string()));

    let entity = provider.extract_entity_name("gen user.profile {");
    assert_eq!(entity, Some("user".to_string()));
}

#[test]
fn test_provide_completions_performance() {
    let provider = CompletionProvider::new();
    let source = "gen document.schema { document has ";

    let start = Instant::now();
    let _completions = provider.provide_completions(source, source.len());
    let duration = start.elapsed();

    assert!(
        duration.as_millis() < 100,
        "Completion took {:?}, expected < 100ms",
        duration
    );
}

#[test]
fn test_lsp_server_creation() {
    let server = DolLspServer::new();
    let completions = server.provide_completions("gen ", 4);
    assert!(!completions.is_empty());
}

#[test]
fn test_extract_entity_name_none_without_gen() {
    let provider = CompletionProvider::new();
    assert_eq!(provider.extract_entity_name("trait x.y {"), None);
}

#[test]
fn test_analyze_context_after_type() {
    let provider = CompletionProvider::new();
    let source = "gen doc.schema { doc has title: String";
    assert_eq!(provider.analyze_context(source, source.len()), CompletionContext::CrdtAnnotation);
    let source = "gen doc.schema { doc has title: String @";
    assert_eq!(provider.analyze_context(source, source.len()), CompletionContext::FieldType);
}

#[test]
fn test_analyze_context_inside_body_and_exegesis() {
    let provider = CompletionProvider::new();
    let source = "gen doc.schema {
  ";
    assert_eq!(provider.analyze_context(source, source.len()), CompletionContext::InsideBody);
    let source = "gen doc.schema { }
exegesis {
  ";
    assert_eq!(provider.analyze_context(source, source.len()), CompletionContext::Exegesis);
}

#[test]
fn test_keyword_items_are_keywords() {
    let provider = CompletionProvider::new();
    for c in provider.complete_keywords() {
        assert_eq!(c.kind, CompletionItemKind::Keyword);
    }
}

#[test]
fn test_lsp_hover_and_diagnostics_empty() {
    let server = DolLspServer::new();
    assert_eq!(server.provide_hover("gen x.y {}", 0), None);
    assert!(server.provide_diagnostics("gen x.y {}").is_empty());
}

#[test]
fn test_field_names_for_entity_or_document() {
    let provider = CompletionProvider::new();
    let user = provider.field_names_for(Some("user".to_string()));
    let labels: Vec<&str> = user.iter().map(|c| c.label.as_str()).collect();
    assert_eq!(labels, vec!["id", "name", "email", "role", "created_at"]);
    let unknown = provider.field_names_for(Some("Robot".to_string()));
    assert!(unknown.iter().any(|c| c.label == "title"));
    let none = provider.field_names_for(None);
    assert!(none.iter().any(|c| c.label == "content"));
    assert!(!none.iter().any(|c| c.label == "email"));
}
