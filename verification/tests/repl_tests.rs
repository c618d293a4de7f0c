use metadol::repl::evaluator::EvalResult;
use metadol::repl::session::SessionConfig;
use metadol::repl::{ReplError, SpiritRepl};

#[test]
fn test_repl_new() {
    let repl = SpiritRepl::new();
    assert!(repl.declarations().is_empty());
    assert!(repl.history().is_empty());
}

#[test]
fn test_repl_default() {
    let repl = SpiritRepl::default();
    assert!(repl.declarations().is_empty());
}

#[test]
fn test_repl_with_config() {
    let config = SessionConfig::with_name("test-session");
    let repl = SpiritRepl::with_config(config);
    assert_eq!(repl.config().name, "test-session");
}

#[test]
fn test_repl_help_command() {
    let mut repl = SpiritRepl::new();
    let result = repl.eval(":help");
    assert!(matches!(result, Ok(EvalResult::Help(_))));
}

#[test]
fn test_repl_help_short_commands() {
    let mut repl = SpiritRepl::new();
    assert!(matches!(repl.eval(":h"), Ok(EvalResult::Help(_))));
    assert!(matches!(repl.eval(":?"), Ok(EvalResult::Help(_))));
}

#[test]
fn test_repl_quit_command() {
    let mut repl = SpiritRepl::new();
    let result = repl.eval(":quit");
    assert!(matches!(result, Ok(EvalResult::Quit)));
}

#[test]
fn test_repl_quit_aliases() {
    let mut repl = SpiritRepl::new();
    assert!(matches!(repl.eval(":q"), Ok(EvalResult::Quit)));
    assert!(matches!(repl.eval(":exit"), Ok(EvalResult::Quit)));
}

#[test]
fn test_repl_empty_input() {
    let mut repl = SpiritRepl::new();
    let result = repl.eval("");
    assert!(matches!(result, Ok(EvalResult::Empty)));
}

#[test]
fn test_repl_whitespace_input() {
    let mut repl = SpiritRepl::new();
    let result = repl.eval("   \t  \n  ");
    assert!(matches!(result, Ok(EvalResult::Empty)));
}

#[test]
fn test_repl_list_empty() {
    let mut repl = SpiritRepl::new();
    let result = repl.eval(":list");
    match result {
        Ok(EvalResult::Message(msg)) => {
            assert!(msg.contains("No declarations"));
        }
        _ => panic!("Expected message about no declarations"),
    }
}

#[test]
fn test_repl_list_alias() {
    let mut repl = SpiritRepl::new();
    let result = repl.eval(":ls");
    match result {
        Ok(EvalResult::Message(msg)) => {
            assert!(msg.contains("No declarations"));
        }
        _ => panic!("Expected message"),
    }
}

#[test]
fn test_repl_unknown_command() {
    let mut repl = SpiritRepl::new();
    let result = repl.eval(":foobar");
    assert!(matches!(result, Err(ReplError::Command(_))));
}

#[test]
fn test_repl_type_not_found() {
    let mut repl = SpiritRepl::new();
    let result = repl.eval(":type NonExistent");
    assert!(matches!(result, Err(ReplError::NotFound(_))));
}

#[test]
fn test_repl_type_no_arg() {
    let mut repl = SpiritRepl::new();
    let result = repl.eval(":type");
    assert!(matches!(result, Err(ReplError::Command(_))));
}

#[test]
fn test_repl_shake_empty() {
    let mut repl = SpiritRepl::new();
    let result = repl.eval(":shake");
    match result {
        Ok(EvalResult::Message(msg)) => {
            assert!(msg.contains("No declarations"));
        }
        _ => panic!("Expected message about no declarations"),
    }
}

#[test]
fn test_repl_emit_empty() {
    let mut repl = SpiritRepl::new();
    let result = repl.eval(":emit");
    match result {
        Ok(EvalResult::Message(msg)) => {
            assert!(msg.contains("No declarations"));
        }
        _ => panic!("Expected message about no declarations"),
    }
}

#[test]
fn test_repl_emit_alias() {
    let mut repl = SpiritRepl::new();
    let result = repl.eval(":rust");
    match result {
        Ok(EvalResult::Message(msg)) => {
            assert!(msg.contains("No declarations"));
        }
        _ => panic!("Expected message"),
    }
}

#[test]
fn test_repl_load_no_arg() {
    let mut repl = SpiritRepl::new();
    let result = repl.eval(":load");
    assert!(matches!(result, Err(ReplError::Command(_))));
}

#[test]
fn test_repl_load_nonexistent_file() {
    let mut repl = SpiritRepl::new();
    let result = repl.eval(":load /nonexistent/file.dol");
    assert!(matches!(result, Err(ReplError::Io(_))));
}

#[test]
fn test_repl_error_display() {
    let err = ReplError::Parse("test error".to_string());
    assert_eq!(err.message(), "Parse error: test error");

    let err = ReplError::NotFound("Point".to_string());
    assert_eq!(err.message(), "Not found: Point");

    let err = ReplError::Command("bad command".to_string());
    assert_eq!(err.message(), "Command error: bad command");

    let err = ReplError::Codegen("gen error".to_string());
    assert_eq!(err.message(), "Codegen error: gen error");

    let err = ReplError::Wasm("wasm error".to_string());
    assert_eq!(err.message(), "WASM error: wasm error");

    let err = ReplError::Io("io error".to_string());
    assert_eq!(err.message(), "I/O error: io error");

    let err = ReplError::Feature("missing".to_string());
    assert_eq!(err.message(), "Feature error: missing");
}

#[test]
fn test_repl_config_accessor() {
    let config = SessionConfig::with_name("my-session");
    let repl = SpiritRepl::with_config(config);

    assert_eq!(repl.config().name, "my-session");
}

// Declarations in the grammar this parser reads.

const GENE: &str = "gene container.exists {\n  container has identity\n}\nexegesis {\n  A container exists.\n}";
const GENE2: &str = "gene container.runs {\n  container has status\n}\nexegesis {\n  A container runs.\n}";

#[test]
fn test_repl_gene_declaration_defines() {
    let mut repl = SpiritRepl::new();
    match repl.eval(GENE) {
        Ok(EvalResult::Defined { name, kind, message }) => {
            assert_eq!(name, "container.exists");
            assert_eq!(kind, "gene");
            assert_eq!(message, "Defined gene container.exists");
        }
        other => panic!("Expected Defined result, got {:?}", other),
    }
    assert_eq!(repl.declarations().len(), 1);
    assert_eq!(repl.history().len(), 1);
}

#[test]
fn test_repl_gene_redefinition_keeps_one() {
    let mut repl = SpiritRepl::new();
    repl.eval(GENE).unwrap();
    match repl.eval(GENE) {
        Ok(EvalResult::Defined { message, .. }) => assert!(message.contains("Redefined")),
        other => panic!("Expected Defined result, got {:?}", other),
    }
    assert_eq!(repl.declarations().len(), 1);
}

#[test]
fn test_repl_list_and_clear_gene_declarations() {
    let mut repl = SpiritRepl::new();
    repl.eval(GENE).unwrap();
    repl.eval(GENE2).unwrap();
    match repl.eval(":list") {
        Ok(EvalResult::Message(msg)) => {
            assert_eq!(msg, "Declarations:\n  container.exists\n  container.runs");
        }
        other => panic!("Expected message, got {:?}", other),
    }
    assert!(matches!(repl.eval(":clear"), Ok(EvalResult::Message(_))));
    assert!(repl.declarations().is_empty());
}

#[test]
fn test_repl_history_text() {
    let mut repl = SpiritRepl::new();
    repl.eval(GENE).unwrap();
    match repl.eval(":history") {
        Ok(EvalResult::Message(msg)) => assert!(msg.starts_with("1: gene container.exists")),
        other => panic!("Expected message, got {:?}", other),
    }
}

#[test]
fn test_repl_type_of_gene() {
    let mut repl = SpiritRepl::new();
    repl.eval(GENE).unwrap();
    assert!(matches!(repl.eval(":t container.exists"), Ok(EvalResult::TypeInfo(_))));
}

#[test]
fn test_repl_load_source() {
    let mut repl = SpiritRepl::new();
    match repl.load_source("a.dol", GENE) {
        Ok(EvalResult::Message(m)) => assert_eq!(m, "Loaded 1 declarations from a.dol"),
        other => panic!("Expected message, got {:?}", other),
    }
    assert_eq!(repl.declarations().len(), 1);
    assert!(matches!(repl.load_source("b.dol", "gene {"), Err(ReplError::Parse(_))));
    assert_eq!(repl.declarations().len(), 1);
}

#[test]
fn test_repl_gene_declaration_legacy() {
    let mut repl = SpiritRepl::new();
    let result = repl.eval("gene Point { has x: Int64\n has y: Int64 }");
    match result {
        Ok(EvalResult::Defined { name, kind, .. }) => {
            assert_eq!(name, "Point");
            assert_eq!(kind, "gene");
        }
        Err(e) => panic!("Failed to define gene: {:?}", e),
        _ => panic!("Expected Defined result"),
    }
}

#[test]
fn test_repl_gen_declaration_v080() {
    let mut repl = SpiritRepl::new();
    let result = repl.eval("gen Point { has x: i64\n has y: i64 }");
    match result {
        Ok(EvalResult::Defined { name, kind, .. }) => {
            assert_eq!(name, "Point");
            assert_eq!(kind, "gene");
        }
        Err(e) => panic!("Failed to define gen: {:?}", e),
        _ => panic!("Expected Defined result"),
    }
}

#[test]
fn test_repl_gene_with_float_fields() {
    let mut repl = SpiritRepl::new();
    let result = repl.eval("gen Vector2D { has dx: f64\n has dy: f64 }");
    match result {
        Ok(EvalResult::Defined { name, kind, .. }) => {
            assert_eq!(name, "Vector2D");
            assert_eq!(kind, "gene");
        }
        Err(e) => panic!("Failed to define gene with floats: {:?}", e),
        _ => panic!("Expected Defined result"),
    }
}

#[test]
fn test_repl_function_declaration() {
    let mut repl = SpiritRepl::new();
    let result = repl.eval("pub fun add(a: i64, b: i64) -> i64 { a + b }");
    match result {
        Ok(EvalResult::Defined { name, kind, .. }) => {
            assert_eq!(name, "add");
            assert_eq!(kind, "function");
        }
        Err(e) => panic!("Failed to define function: {:?}", e),
        _ => panic!("Expected Defined result"),
    }
}

#[test]
fn test_repl_function_without_pub() {
    let mut repl = SpiritRepl::new();
    let result = repl.eval("fun multiply(x: i64, y: i64) -> i64 { x * y }");
    match result {
        Ok(EvalResult::Defined { name, kind, .. }) => {
            assert_eq!(name, "multiply");
            assert_eq!(kind, "function");
        }
        Err(e) => panic!("Failed to define function: {:?}", e),
        _ => panic!("Expected Defined result"),
    }
}

#[test]
fn test_repl_function_with_gene_constructor() {
    let mut repl = SpiritRepl::new();
    let _ = repl.eval("gen Point { has x: i64\n has y: i64 }");
    let result =
        repl.eval("pub fun create_point() -> i64 { let p = Point { x: 10, y: 20 }\n p.x }");
    match result {
        Ok(EvalResult::Defined { name, kind, .. }) => {
            assert_eq!(name, "create_point");
            assert_eq!(kind, "function");
        }
        Err(e) => panic!("Failed to define function with gene: {:?}", e),
        _ => panic!("Expected Defined result"),
    }
}

#[test]
fn test_repl_trait_declaration() {
    let mut repl = SpiritRepl::new();
    let result = repl.eval("trait Addable { has value: i64 }");
    match result {
        Ok(EvalResult::Defined { name, kind, .. }) => {
            assert_eq!(name, "Addable");
            assert_eq!(kind, "trait");
        }
        Err(e) => panic!("Failed to define trait: {:?}", e),
        _ => panic!("Expected Defined result"),
    }
}

#[test]
fn test_repl_list_declarations() {
    let mut repl = SpiritRepl::new();
    repl.eval("gen Point { has x: i64 }").unwrap();
    repl.eval("gen Circle { has radius: i64 }").unwrap();
    let result = repl.eval(":list");
    match result {
        Ok(EvalResult::Message(msg)) => {
            assert!(msg.contains("Point"));
            assert!(msg.contains("Circle"));
        }
        _ => panic!("Expected message with declarations"),
    }
}

#[test]
fn test_repl_redefinition() {
    let mut repl = SpiritRepl::new();
    repl.eval("gen Point { has x: i64 }").unwrap();
    assert_eq!(repl.declarations().len(), 1);
    let result = repl.eval("gen Point { has x: i64\n has y: i64 }");
    match result {
        Ok(EvalResult::Defined { message, .. }) => {
            assert!(message.contains("Redefined"));
        }
        Err(e) => panic!("Failed to redefine: {:?}", e),
        _ => panic!("Expected Defined result"),
    }
    assert_eq!(repl.declarations().len(), 1);
}

#[test]
fn test_repl_clear() {
    let mut repl = SpiritRepl::new();
    repl.eval("gen Point { has x: i64 }").unwrap();
    repl.eval("gen Circle { has r: i64 }").unwrap();
    assert_eq!(repl.declarations().len(), 2);
    let result = repl.eval(":clear");
    assert!(matches!(result, Ok(EvalResult::Message(_))));
    assert!(repl.declarations().is_empty());
}

#[test]
fn test_repl_reset_alias() {
    let mut repl = SpiritRepl::new();
    repl.eval("gen Point { has x: i64 }").unwrap();
    let result = repl.eval(":reset");
    assert!(matches!(result, Ok(EvalResult::Message(_))));
    assert!(repl.declarations().is_empty());
}

#[test]
fn test_repl_type_gene() {
    let mut repl = SpiritRepl::new();
    repl.eval("gen Point { has x: i64\n has y: i64 }").unwrap();
    let result = repl.eval(":type Point");
    match result {
        Ok(EvalResult::TypeInfo(info)) => {
            assert!(info.contains("Point"));
            assert!(info.contains("x"));
            assert!(info.contains("y"));
        }
        Err(e) => panic!("Failed to get type info: {:?}", e),
        _ => panic!("Expected TypeInfo result"),
    }
}

#[test]
fn test_repl_type_function() {
    let mut repl = SpiritRepl::new();
    repl.eval("fun add(a: i64, b: i64) -> i64 { a + b }").unwrap();
    let result = repl.eval(":type add");
    match result {
        Ok(EvalResult::TypeInfo(info)) => {
            assert!(info.contains("add"));
            assert!(info.contains("a"));
            assert!(info.contains("b"));
        }
        Err(e) => panic!("Failed to get type info: {:?}", e),
        _ => panic!("Expected TypeInfo result"),
    }
}

#[test]
fn test_repl_type_alias() {
    let mut repl = SpiritRepl::new();
    repl.eval("gen Point { has x: i64 }").unwrap();
    let result = repl.eval(":t Point");
    assert!(matches!(result, Ok(EvalResult::TypeInfo(_))));
}

#[test]
fn test_repl_history() {
    let mut repl = SpiritRepl::new();
    repl.eval("gen Point { has x: i64 }").unwrap();
    repl.eval("gen Circle { has r: i64 }").unwrap();
    assert_eq!(repl.history().len(), 2);
    assert!(repl.history()[0].contains("Point"));
    assert!(repl.history()[1].contains("Circle"));
}

#[test]
fn test_repl_history_command() {
    let mut repl = SpiritRepl::new();
    repl.eval("gen Point { has x: i64 }").unwrap();
    let result = repl.eval(":history");
    match result {
        Ok(EvalResult::Message(msg)) => {
            assert!(msg.contains("Point"));
        }
        _ => panic!("Expected history message"),
    }
}

#[test]
fn test_repl_expression_requires_wasm() {
    let mut repl = SpiritRepl::new();
    let result = repl.eval("1 + 2");
    assert!(matches!(result, Err(ReplError::Feature(_))));
}

#[test]
fn test_repl_function_as_expression() {
    let mut repl = SpiritRepl::new();
    let result = repl.eval("pub fun calculate() -> i64 { 1 + 2 }");
    match result {
        Ok(EvalResult::Defined { name, kind, .. }) => {
            assert_eq!(name, "calculate");
            assert_eq!(kind, "function");
        }
        Err(e) => panic!("Failed to define function: {:?}", e),
        _ => panic!("Expected Defined result"),
    }
}

#[test]
fn test_repl_wasm_feature_disabled() {
    let mut repl = SpiritRepl::new();
    repl.eval("gen Point { has x: i64 }").unwrap();
    let result = repl.eval(":wasm");
    assert!(matches!(result, Err(ReplError::Feature(_))));
}

#[test]
fn test_repl_declarations_accessor() {
    let mut repl = SpiritRepl::new();
    repl.eval("gen Point { has x: i64 }").unwrap();
    repl.eval("gen Circle { has r: i64 }").unwrap();
    let decls = repl.declarations();
    assert_eq!(decls.len(), 2);
}

#[test]
fn test_repl_history_accessor() {
    let mut repl = SpiritRepl::new();
    repl.eval("gen Point { has x: i64 }").unwrap();
    let history = repl.history();
    assert_eq!(history.len(), 1);
}

#[test]
fn test_repl_typed_declaration_texts() {
    let mut repl = SpiritRepl::new();
    repl.eval("gen Point { has x: i64\n has y: i64 }").unwrap();
    repl.eval("pub fun add(a: i64, b: i64) -> i64 { a + b }").unwrap();
    repl.eval("trait Addable { has value: i64 }").unwrap();
    assert!(matches!(repl.eval(":type Point"), Ok(EvalResult::TypeInfo(t)) if t == "gene Point {\n  x: i64\n  y: i64\n}"));
    assert!(matches!(repl.eval(":type add"), Ok(EvalResult::TypeInfo(t)) if t == "fun add(a: i64, b: i64) -> i64"));
    assert!(matches!(repl.eval(":type Addable"), Ok(EvalResult::TypeInfo(t)) if t == "trait Addable"));
    assert!(matches!(repl.eval("x }"), Err(ReplError::Parse(_))));
    assert!(matches!(repl.eval("fun open() -> i64 { 1 "), Err(ReplError::Parse(_))));
}
