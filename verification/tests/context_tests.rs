use metadol::repl::context::ReplContext;

#[test]
fn test_context_new() {
    let ctx = ReplContext::new();
    assert!(ctx.is_empty());
    assert!(ctx.roots().is_empty());
}

#[test]
fn test_add_declaration() {
    let mut ctx = ReplContext::new();
    ctx.add_declaration("Point", "gene");
    assert!(ctx.has_symbol("Point"));
    assert_eq!(ctx.len(), 1);
    let info = ctx.get_symbol("Point").unwrap();
    assert_eq!(info.name, "Point");
    assert_eq!(info.kind, "gene");
}

#[test]
fn test_add_dependency() {
    let mut ctx = ReplContext::new();
    ctx.add_declaration("Point", "gene");
    ctx.add_declaration("Circle", "gene");
    ctx.add_dependency("Circle", "Point");
    let deps = ctx.get_dependencies("Circle").unwrap();
    assert!(deps.contains(&"Point".to_string()));
}

#[test]
fn test_remove_symbol() {
    let mut ctx = ReplContext::new();
    ctx.add_declaration("Point", "gene");
    assert!(ctx.has_symbol("Point"));
    ctx.remove_symbol("Point");
    assert!(!ctx.has_symbol("Point"));
}

#[test]
fn test_clear() {
    let mut ctx = ReplContext::new();
    ctx.add_declaration("Point", "gene");
    ctx.add_declaration("Circle", "gene");
    ctx.clear();
    assert!(ctx.is_empty());
}

#[test]
fn test_redeclaration_keeps_one_symbol() {
    let mut ctx = ReplContext::new();
    ctx.add_declaration("Point", "gene");
    ctx.add_declaration("Point", "trait");
    assert_eq!(ctx.len(), 1);
    assert_eq!(ctx.get_symbol("Point").unwrap().kind, "trait");
}

#[test]
fn test_public_declaration_is_root() {
    let mut ctx = ReplContext::new();
    ctx.add_declaration("Point", "gene");
    assert_eq!(ctx.roots(), &["Point".to_string()]);
    ctx.remove_symbol("Point");
    assert!(ctx.roots().is_empty());
}

#[test]
fn test_dependency_of_unknown_symbol_is_recorded_in_imports_only() {
    let mut ctx = ReplContext::new();
    ctx.add_dependency("Ghost", "Point");
    assert_eq!(ctx.get_dependencies("Ghost"), Some(&vec!["Point".to_string()]));
    assert!(ctx.is_empty());
    assert!(ctx.get_symbol("Ghost").is_none());
}

#[test]
fn test_set_type_sig() {
    let mut ctx = ReplContext::new();
    ctx.add_declaration("add", "function");
    ctx.set_type_sig("add", "(i64, i64) -> i64");
    assert_eq!(ctx.get_symbol("add").unwrap().type_sig.as_deref(), Some("(i64, i64) -> i64"));
}

#[test]
fn test_declare_then_remove_restores_context() {
    let mut ctx = ReplContext::new();
    ctx.add_declaration("Point", "gene");
    ctx.add_declaration("Circle", "gene");
    ctx.add_dependency("Circle", "Point");
    let roots_before: Vec<String> = ctx.roots().to_vec();
    let len_before = ctx.len();
    ctx.add_declaration("Temp", "trait");
    ctx.add_dependency("Temp", "Point");
    ctx.remove_symbol("Temp");
    assert!(!ctx.has_symbol("Temp"));
    assert_eq!(ctx.len(), len_before);
    assert_eq!(ctx.roots().to_vec(), roots_before);
    assert!(ctx.get_dependencies("Temp").is_none());
    assert!(ctx.get_dependencies("Circle").is_some());
}
