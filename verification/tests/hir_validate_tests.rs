use metadol::hir::span::{HirId, Span, SpanMap};
use metadol::hir::symbol::{Symbol, SymbolTable};
use metadol::hir::types::{
    HirAssignStmt, HirBlockExpr, HirCallExpr, HirConstructorPat, HirDecl, HirExpr, HirField,
    HirFunctionDecl, HirLiteral, HirMatchArm, HirMatchExpr, HirModule, HirModuleDecl, HirNamedType,
    HirParam, HirPat, HirStatement, HirStatementKind, HirStmt, HirType, HirTypeDecl, HirTypeDef,
    HirValStmt,
};
use metadol::hir::validate::{
    is_builtin_type, validate_module, DiagnosticLevel, SymbolInfo, SymbolKind, ValidationContext,
    ValidationError,
};

fn create_test_module(symbols: &mut SymbolTable) -> HirModule {
    let name = symbols.intern("test_module");
    HirModule::new(name)
}

#[test]
fn test_valid_empty_module() {
    let mut symbols = SymbolTable::new();
    let spans = SpanMap::new();
    let module = create_test_module(&mut symbols);

    let result = validate_module(&module, &symbols, &spans);
    assert!(result.is_ok());
}

#[test]
fn test_valid_function_declaration() {
    let mut symbols = SymbolTable::new();
    let spans = SpanMap::new();

    let module_name = symbols.intern("test_module");
    let func_name = symbols.intern("my_func");
    let int_type = symbols.intern("Int");

    let mut module = HirModule::new(module_name);
    module.decls.push(HirDecl::Function(HirFunctionDecl {
        id: HirId::new(),
        name: func_name,
        type_params: vec![],
        params: vec![],
        return_type: HirType::Named(HirNamedType {
            name: int_type,
            args: vec![],
        }),
        body: Some(HirExpr::Literal(HirLiteral::Int(42))),
    }));

    let result = validate_module(&module, &symbols, &spans);
    assert!(result.is_ok());
}

#[test]
fn test_duplicate_function_names() {
    let mut symbols = SymbolTable::new();
    let spans = SpanMap::new();

    let module_name = symbols.intern("test_module");
    let func_name = symbols.intern("duplicate_func");
    let int_type = symbols.intern("Int");

    let mut module = HirModule::new(module_name);

    // Add two functions with the same name
    for _ in 0..2 {
        module.decls.push(HirDecl::Function(HirFunctionDecl {
            id: HirId::new(),
            name: func_name,
            type_params: vec![],
            params: vec![],
            return_type: HirType::Named(HirNamedType {
                name: int_type,
                args: vec![],
            }),
            body: None,
        }));
    }

    let result = validate_module(&module, &symbols, &spans);
    assert!(result.is_err());
    let errors = result.unwrap_err();
    assert!(errors.iter().any(|e| e.message.contains("duplicate")));
}

#[test]
fn test_undefined_variable() {
    let mut symbols = SymbolTable::new();
    let spans = SpanMap::new();

    let module_name = symbols.intern("test_module");
    let func_name = symbols.intern("my_func");
    let undefined_var = symbols.intern("undefined_var");
    let int_type = symbols.intern("Int");

    let mut module = HirModule::new(module_name);
    module.decls.push(HirDecl::Function(HirFunctionDecl {
        id: HirId::new(),
        name: func_name,
        type_params: vec![],
        params: vec![],
        return_type: HirType::Named(HirNamedType {
            name: int_type,
            args: vec![],
        }),
        body: Some(HirExpr::Var(undefined_var)),
    }));

    let result = validate_module(&module, &symbols, &spans);
    assert!(result.is_err());
    let errors = result.unwrap_err();
    assert!(errors
        .iter()
        .any(|e| e.message.contains("undefined variable")));
}

#[test]
fn test_valid_type_declaration() {
    let mut symbols = SymbolTable::new();
    let spans = SpanMap::new();

    let module_name = symbols.intern("test_module");
    let ty_name = symbols.intern("MyStruct");
    let field_name = symbols.intern("field");
    let int_type = symbols.intern("Int");

    let mut module = HirModule::new(module_name);
    module.decls.push(HirDecl::Type(HirTypeDecl {
        id: HirId::new(),
        name: ty_name,
        type_params: vec![],
        body: HirTypeDef::Struct(vec![HirField {
            name: field_name,
            ty: HirType::Named(HirNamedType {
                name: int_type,
                args: vec![],
            }),
        }]),
    }));

    let result = validate_module(&module, &symbols, &spans);
    assert!(result.is_ok());
}

#[test]
fn test_duplicate_struct_fields() {
    let mut symbols = SymbolTable::new();
    let spans = SpanMap::new();

    let module_name = symbols.intern("test_module");
    let ty_name = symbols.intern("MyStruct");
    let field_name = symbols.intern("duplicate_field");
    let int_type = symbols.intern("Int");

    let mut module = HirModule::new(module_name);
    module.decls.push(HirDecl::Type(HirTypeDecl {
        id: HirId::new(),
        name: ty_name,
        type_params: vec![],
        body: HirTypeDef::Struct(vec![
            HirField {
                name: field_name,
                ty: HirType::Named(HirNamedType {
                    name: int_type,
                    args: vec![],
                }),
            },
            HirField {
                name: field_name,
                ty: HirType::Named(HirNamedType {
                    name: int_type,
                    args: vec![],
                }),
            },
        ]),
    }));

    let result = validate_module(&module, &symbols, &spans);
    assert!(result.is_err());
    let errors = result.unwrap_err();
    assert!(errors.iter().any(|e| e.message.contains("duplicate field")));
}

#[test]
fn test_gene_validation() {
    let mut symbols = SymbolTable::new();
    let spans = SpanMap::new();

    let module_name = symbols.intern("test_module");
    let gene_name = symbols.intern("MyGene");
    let subject = symbols.intern("container");
    let property = symbols.intern("storage");

    let mut module = HirModule::new(module_name);
    module.decls.push(HirDecl::Type(HirTypeDecl {
        id: HirId::new(),
        name: gene_name,
        type_params: vec![],
        body: HirTypeDef::Gene(vec![HirStatement {
            id: HirId::new(),
            kind: HirStatementKind::Has { subject, property },
        }]),
    }));

    let result = validate_module(&module, &symbols, &spans);
    assert!(result.is_ok());
}

#[test]
fn test_self_derivation_warning() {
    let mut symbols = SymbolTable::new();
    let spans = SpanMap::new();

    let module_name = symbols.intern("test_module");
    let gene_name = symbols.intern("MyGene");
    let subject = symbols.intern("container");

    let mut module = HirModule::new(module_name);
    module.decls.push(HirDecl::Type(HirTypeDecl {
        id: HirId::new(),
        name: gene_name,
        type_params: vec![],
        body: HirTypeDef::Gene(vec![HirStatement {
            id: HirId::new(),
            kind: HirStatementKind::DerivesFrom {
                subject,
                parent: subject, // Self-derivation
            },
        }]),
    }));

    // This should not error (just warn), so validation passes
    let result = validate_module(&module, &symbols, &spans);
    assert!(result.is_ok());
}

#[test]
fn test_undefined_type_reference() {
    let mut symbols = SymbolTable::new();
    let spans = SpanMap::new();

    let module_name = symbols.intern("test_module");
    let func_name = symbols.intern("my_func");
    let undefined_type = symbols.intern("UndefinedType");

    let mut module = HirModule::new(module_name);
    module.decls.push(HirDecl::Function(HirFunctionDecl {
        id: HirId::new(),
        name: func_name,
        type_params: vec![],
        params: vec![],
        return_type: HirType::Named(HirNamedType {
            name: undefined_type,
            args: vec![],
        }),
        body: None,
    }));

    let result = validate_module(&module, &symbols, &spans);
    assert!(result.is_err());
    let errors = result.unwrap_err();
    assert!(errors.iter().any(|e| e.message.contains("undefined type")));
}

#[test]
fn test_validation_error_display() {
    let err = ValidationError::error("test error")
        .with_span(Span::new(10, 20))
        .with_suggestion("try this instead");

    let display = err.display();
    assert!(display.contains("error"));
    assert!(display.contains("test error"));
    assert!(display.contains("10..20"));
    assert!(display.contains("try this instead"));
}

#[test]
fn test_validation_context_scope() {
    let symbols = SymbolTable::new();
    let spans = SpanMap::new();
    let mut ctx = ValidationContext::new(&symbols, &spans);

    // Initially one scope (global)
    assert!(ctx.lookup(Symbol::new(999)).is_none());

    // Push and pop scopes
    ctx.push_scope();
    ctx.push_scope();
    ctx.pop_scope();
    ctx.pop_scope();

    // Should still work
    assert!(ctx.lookup(Symbol::new(999)).is_none());
}

#[test]
fn test_builtin_types() {
    assert!(is_builtin_type("Int"));
    assert!(is_builtin_type("Bool"));
    assert!(is_builtin_type("String"));
    assert!(is_builtin_type("i32"));
    assert!(is_builtin_type("f64"));
    assert!(!is_builtin_type("CustomType"));
    assert!(!is_builtin_type("MyStruct"));
}

#[test]
fn test_invalid_assignment_target() {
    let mut symbols = SymbolTable::new();
    let spans = SpanMap::new();

    let module_name = symbols.intern("test_module");
    let func_name = symbols.intern("my_func");
    let unit_type = symbols.intern("Unit");

    let mut module = HirModule::new(module_name);
    module.decls.push(HirDecl::Function(HirFunctionDecl {
        id: HirId::new(),
        name: func_name,
        type_params: vec![],
        params: vec![],
        return_type: HirType::Named(HirNamedType {
            name: unit_type,
            args: vec![],
        }),
        body: Some(HirExpr::Block(Box::new(HirBlockExpr {
            stmts: vec![HirStmt::Assign(HirAssignStmt {
                // Invalid: assigning to a literal
                lhs: HirExpr::Literal(HirLiteral::Int(1)),
                rhs: HirExpr::Literal(HirLiteral::Int(2)),
            })],
            expr: None,
        }))),
    }));

    let result = validate_module(&module, &symbols, &spans);
    assert!(result.is_err());
    let errors = result.unwrap_err();
    assert!(errors
        .iter()
        .any(|e| e.message.contains("invalid assignment")));
}

fn named(name: Symbol) -> HirType {
    HirType::Named(HirNamedType { name, args: vec![] })
}

fn function(name: Symbol, ret: Symbol, params: Vec<HirParam>, body: Option<HirExpr>) -> HirDecl {
    HirDecl::Function(HirFunctionDecl {
        id: HirId::new(),
        name,
        type_params: vec![],
        params,
        return_type: named(ret),
        body,
    })
}

#[test]
fn test_parameters_are_in_scope_and_calls_resolve() {
    let mut symbols = SymbolTable::new();
    let spans = SpanMap::new();
    let mut module = create_test_module(&mut symbols);
    let f = symbols.intern("f");
    let g = symbols.intern("g");
    let x = symbols.intern("x");
    let int = symbols.intern("Int");
    module.decls.push(function(
        f,
        int,
        vec![HirParam { pat: HirPat::Var(x), ty: named(int) }],
        Some(HirExpr::Call(Box::new(HirCallExpr { func: HirExpr::Var(g), args: vec![HirExpr::Var(x)] }))),
    ));
    // `g` is declared after `f`: the first pass makes it visible.
    module.decls.push(function(g, int, vec![], None));
    assert!(validate_module(&module, &symbols, &spans).is_ok());
}

#[test]
fn test_duplicate_declaration_reports_span_and_previous_node() {
    let mut symbols = SymbolTable::new();
    let mut spans = SpanMap::new();
    let mut module = create_test_module(&mut symbols);
    let t = symbols.intern("T");
    spans.insert(HirId::new(), Span::new(3, 9));
    for _ in 0..2 {
        module.decls.push(HirDecl::Type(HirTypeDecl {
            id: HirId::new(),
            name: t,
            type_params: vec![],
            body: HirTypeDef::Struct(vec![]),
        }));
    }
    let errors = validate_module(&module, &symbols, &spans).unwrap_err();
    assert_eq!(errors.len(), 1);
    assert_eq!(errors[0].message, "duplicate definition of `T`");
    assert_eq!(errors[0].span, Some(Span::new(3, 9)));
    assert_eq!(errors[0].suggestion.as_deref(), Some("`T` was previously defined at node HirId(0)"));
}

#[test]
fn test_match_arm_bindings_are_local() {
    let mut symbols = SymbolTable::new();
    let spans = SpanMap::new();
    let mut module = create_test_module(&mut symbols);
    let f = symbols.intern("f");
    let y = symbols.intern("y");
    let unit = symbols.intern("Unit");
    let body = HirExpr::Block(Box::new(HirBlockExpr {
        stmts: vec![
            HirStmt::Expr(HirExpr::Match(Box::new(HirMatchExpr {
                scrutinee: HirExpr::Literal(HirLiteral::Int(1)),
                arms: vec![HirMatchArm { pat: HirPat::Var(y), guard: None, body: HirExpr::Var(y) }],
            }))),
            HirStmt::Expr(HirExpr::Var(y)),
        ],
        expr: None,
    }));
    module.decls.push(function(f, unit, vec![], Some(body)));
    let errors = validate_module(&module, &symbols, &spans).unwrap_err();
    assert_eq!(errors.len(), 1);
    assert_eq!(errors[0].message, "undefined variable `y`");
}

#[test]
fn test_or_pattern_alternatives_and_unknown_constructor() {
    let mut symbols = SymbolTable::new();
    let spans = SpanMap::new();
    let mut module = create_test_module(&mut symbols);
    let f = symbols.intern("f");
    let a = symbols.intern("a");
    let b = symbols.intern("b");
    let some = symbols.intern("Some");
    let unit = symbols.intern("Unit");
    let pat = HirPat::Or(vec![
        HirPat::Var(a),
        HirPat::Constructor(HirConstructorPat { name: some, fields: vec![HirPat::Var(b)] }),
    ]);
    let body = HirExpr::Block(Box::new(HirBlockExpr {
        stmts: vec![
            HirStmt::Val(HirValStmt { pat, ty: None, init: HirExpr::Literal(HirLiteral::Unit) }),
            HirStmt::Break(None),
        ],
        expr: None,
    }));
    module.decls.push(function(f, unit, vec![], Some(body)));
    let errors = validate_module(&module, &symbols, &spans).unwrap_err();
    let messages: Vec<&str> = errors.iter().map(|e| e.message.as_str()).collect();
    assert_eq!(
        messages,
        vec![
            "or-pattern alternative 2 binds different variables",
            "undefined constructor `Some`",
            "`break` outside of loop",
        ]
    );
}

#[test]
fn test_self_requirement_is_a_warning_and_non_types_are_errors() {
    let mut symbols = SymbolTable::new();
    let spans = SpanMap::new();
    let mut module = create_test_module(&mut symbols);
    let gene = symbols.intern("G");
    let s = symbols.intern("s");
    let f = symbols.intern("f");
    module.decls.push(HirDecl::Type(HirTypeDecl {
        id: HirId::new(),
        name: gene,
        type_params: vec![],
        body: HirTypeDef::Gene(vec![HirStatement {
            id: HirId::new(),
            kind: HirStatementKind::Requires { subject: s, dependency: s },
        }]),
    }));
    assert!(validate_module(&module, &symbols, &spans).is_ok());
    // A function name used as a type.
    module.decls.push(function(f, f, vec![], None));
    let errors = validate_module(&module, &symbols, &spans).unwrap_err();
    assert_eq!(errors.len(), 1);
    assert_eq!(errors[0].message, "`f` is not a type");
}

#[test]
fn test_nested_module_scope_and_context_define() {
    let mut symbols = SymbolTable::new();
    let spans = SpanMap::new();
    let mut module = create_test_module(&mut symbols);
    let inner = symbols.intern("inner");
    let t = symbols.intern("T");
    // The same name at two levels is no duplicate.
    module.decls.push(HirDecl::Type(HirTypeDecl {
        id: HirId::new(),
        name: t,
        type_params: vec![],
        body: HirTypeDef::Struct(vec![]),
    }));
    module.decls.push(HirDecl::Module(HirModuleDecl {
        id: HirId::new(),
        name: inner,
        decls: vec![HirDecl::Type(HirTypeDecl {
            id: HirId::new(),
            name: t,
            type_params: vec![],
            body: HirTypeDef::Struct(vec![]),
        })],
    }));
    assert!(validate_module(&module, &symbols, &spans).is_ok());

    let mut ctx = ValidationContext::new(&symbols, &spans);
    let info = |kind| SymbolInfo { name: t, kind, defined_at: HirId::new(), ty: None };
    assert!(ctx.define(t, info(SymbolKind::Type)).is_ok());
    let e = ctx.define(t, info(SymbolKind::Variable)).unwrap_err();
    assert!(e.is_error());
    assert_eq!(e.level, DiagnosticLevel::Error);
    assert_eq!(ctx.lookup(t).map(|i| i.kind), Some(SymbolKind::Type));
    ctx.push_scope();
    assert!(ctx.define(t, info(SymbolKind::Variable)).is_ok());
    assert_eq!(ctx.lookup(t).map(|i| i.kind), Some(SymbolKind::Variable));
    ctx.pop_scope();
    assert_eq!(ctx.lookup(t).map(|i| i.kind), Some(SymbolKind::Type));
    assert_eq!(ctx.resolve_name(Symbol::new(999)), "<unknown>");
    assert!(!ctx.has_errors());
    ctx.error(ValidationError::warning("w"));
    assert!(!ctx.has_errors());
    ctx.error(ValidationError::error("e"));
    assert!(ctx.has_errors());
    assert_eq!(ctx.diagnostics().len(), 2);
}

#[test]
fn test_assignment_to_field_of_variable_is_valid() {
    let mut symbols = SymbolTable::new();
    let spans = SpanMap::new();
    let mut module = create_test_module(&mut symbols);
    let f = symbols.intern("f");
    let x = symbols.intern("x");
    let unit = symbols.intern("Unit");
    let body = HirExpr::Block(Box::new(HirBlockExpr {
        stmts: vec![HirStmt::Assign(HirAssignStmt {
            lhs: HirExpr::Var(x),
            rhs: HirExpr::Literal(HirLiteral::Bool(true)),
        })],
        expr: None,
    }));
    module.decls.push(function(f, unit, vec![HirParam { pat: HirPat::Var(x), ty: named(unit) }], Some(body)));
    assert!(validate_module(&module, &symbols, &spans).is_ok());
    let _ = HirField { name: x, ty: named(unit) };
}
