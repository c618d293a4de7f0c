use metadol::repl::evaluator::{EvalError, EvalResult, ReplEvaluator};

#[test]
fn test_evaluator_new() {
    let eval = ReplEvaluator::new();
    assert!(!eval.optimize);
    assert!(eval.debug_info);
}

#[test]
fn test_evaluator_optimized() {
    let eval = ReplEvaluator::optimized();
    assert!(eval.optimize);
    assert!(!eval.debug_info);
}

#[test]
fn test_infer_type_integer_literals() {
    let eval = ReplEvaluator::new();
    assert_eq!(eval.infer_expression_type("42"), "i64");
    assert_eq!(eval.infer_expression_type("0"), "i64");
    assert_eq!(eval.infer_expression_type("-1"), "i64");
    assert_eq!(eval.infer_expression_type("1_000_000"), "i64");
}

#[test]
fn test_infer_type_float_literals() {
    let eval = ReplEvaluator::new();
    assert_eq!(eval.infer_expression_type("3.14"), "f64");
    assert_eq!(eval.infer_expression_type("0.0"), "f64");
    assert_eq!(eval.infer_expression_type("-1.5"), "f64");
    assert_eq!(eval.infer_expression_type("1.0e10"), "f64");
    assert_eq!(eval.infer_expression_type("2.5E-3"), "f64");
}

#[test]
fn test_infer_type_boolean_literals() {
    let eval = ReplEvaluator::new();
    assert_eq!(eval.infer_expression_type("true"), "bool");
    assert_eq!(eval.infer_expression_type("false"), "bool");
}

#[test]
fn test_infer_type_with_whitespace() {
    let eval = ReplEvaluator::new();
    assert_eq!(eval.infer_expression_type("  42  "), "i64");
    assert_eq!(eval.infer_expression_type("\t3.14\n"), "f64");
    assert_eq!(eval.infer_expression_type("  true  "), "bool");
}

#[test]
fn test_infer_type_expressions_with_floats() {
    let eval = ReplEvaluator::new();
    assert_eq!(eval.infer_expression_type("1.0 + 2.0"), "f64");
    assert_eq!(eval.infer_expression_type("x + 3.14"), "f64");
    assert_eq!(eval.infer_expression_type("a * 0.5"), "f64");
}

#[test]
fn test_infer_type_expressions_with_type_hints() {
    let eval = ReplEvaluator::new();
    assert_eq!(eval.infer_expression_type("x as f64"), "f64");
    assert_eq!(eval.infer_expression_type("Float64::from(x)"), "f64");
}

#[test]
fn test_infer_type_complex_expressions_default_to_i64() {
    let eval = ReplEvaluator::new();
    assert_eq!(eval.infer_expression_type("a + b"), "i64");
    assert_eq!(eval.infer_expression_type("foo(x, y)"), "i64");
    assert_eq!(eval.infer_expression_type("if x { 1 } else { 2 }"), "i64");
}

#[test]
fn test_builder_methods() {
    let eval = ReplEvaluator::new()
        .with_optimization(true)
        .with_debug_info(false);
    assert!(eval.optimize);
    assert!(!eval.debug_info);

    let eval2 = ReplEvaluator::new()
        .with_optimization(false)
        .with_debug_info(true);
    assert!(!eval2.optimize);
    assert!(eval2.debug_info);
}

#[test]
fn test_clear_cache() {
    let mut eval = ReplEvaluator::new();
    eval.clear_cache();
    assert!(eval.wasm_cache.is_empty());
}

#[test]
fn test_eval_error_display() {
    assert_eq!(
        EvalError::Parse("unexpected token".to_string()).message(),
        "Parse error: unexpected token"
    );
    assert_eq!(
        EvalError::Compile("type mismatch".to_string()).message(),
        "Compile error: type mismatch"
    );
    assert_eq!(
        EvalError::Runtime("division by zero".to_string()).message(),
        "Runtime error: division by zero"
    );
    assert_eq!(
        EvalError::Feature("wasm not enabled".to_string()).message(),
        "Feature error: wasm not enabled"
    );
}

#[test]
fn test_eval_result_variants() {
    let empty = EvalResult::Empty;
    assert!(matches!(empty, EvalResult::Empty));

    let defined = EvalResult::Defined {
        name: "foo".to_string(),
        kind: "gene".to_string(),
        message: "defined".to_string(),
    };
    assert!(matches!(defined, EvalResult::Defined { .. }));

    let expr = EvalResult::Expression {
        input: "1 + 2".to_string(),
        value: "3".to_string(),
    };
    assert!(matches!(expr, EvalResult::Expression { .. }));

    let help = EvalResult::Help("help text".to_string());
    assert!(matches!(help, EvalResult::Help(_)));

    let quit = EvalResult::Quit;
    assert!(matches!(quit, EvalResult::Quit));

    let msg = EvalResult::Message("hello".to_string());
    assert!(matches!(msg, EvalResult::Message(_)));

    let type_info = EvalResult::TypeInfo("i64".to_string());
    assert!(matches!(type_info, EvalResult::TypeInfo(_)));

    let rust_code = EvalResult::RustCode("fn main() {}".to_string());
    assert!(matches!(rust_code, EvalResult::RustCode(_)));

    let wasm_info = EvalResult::WasmInfo {
        size_bytes: 100,
        functions: 5,
        has_memory: true,
    };
    assert!(matches!(wasm_info, EvalResult::WasmInfo { .. }));
}

#[test]
fn test_compile_to_wasm_reports_missing_feature() {
    let mut eval = ReplEvaluator::new();
    match eval.compile_to_wasm("gene a.b { a has c }") {
        Err(EvalError::Feature(m)) => assert_eq!(m, "wasm-compile feature not enabled"),
        other => panic!("expected a feature error, got {:?}", other),
    }
}

#[test]
fn test_infer_type_bool_inside_expression_is_default() {
    let eval = ReplEvaluator::new();
    assert_eq!(eval.infer_expression_type("true && false"), "i64");
    assert_eq!(eval.infer_expression_type(""), "i64");
}
