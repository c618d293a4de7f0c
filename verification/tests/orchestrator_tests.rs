use metadol::orchestrator::{sort_modules_by_dependencies, BuildError, Module};

fn module(name: &str, deps: &[&str]) -> Module {
    Module {
        name: name.to_string(),
        full_path: format!("spirit.{}", name),
        file_path: format!("{}.dol", name),
        dependencies: deps.iter().map(|d| d.to_string()).collect(),
    }
}

fn names(modules: &[Module]) -> Vec<String> {
    modules.iter().map(|m| m.name.clone()).collect()
}

#[test]
fn test_module_creation() {
    let module = module("test", &[]);
    assert_eq!(module.name, "test");
    assert_eq!(module.dependencies.len(), 0);
}

#[test]
fn test_build_error_messages() {
    assert_eq!(BuildError::IoError("x".to_string()).message(), "I/O error: x");
    assert_eq!(BuildError::ParseError("x".to_string()).message(), "Parse error: x");
    assert_eq!(BuildError::ModuleNotFound("x".to_string()).message(), "Module not found: x");
    assert_eq!(
        BuildError::CircularDependency("x".to_string()).message(),
        "Circular dependency: x"
    );
    assert_eq!(BuildError::InvalidPath("x".to_string()).message(), "Invalid path: x");
    assert_eq!(BuildError::CompileError("x".to_string()).message(), "Compilation error: x");
}

#[test]
fn test_sort_chain_puts_dependencies_first() {
    let mut modules = vec![module("a", &["b"]), module("b", &["c"]), module("c", &[])];
    assert!(sort_modules_by_dependencies(&mut modules).is_ok());
    assert_eq!(names(&modules), vec!["c", "b", "a"]);
    assert_eq!(modules[0].full_path, "spirit.c");
    assert_eq!(modules[2].dependencies, vec!["b".to_string()]);
}

#[test]
fn test_sort_keeps_independent_modules_in_place() {
    let mut modules = vec![module("x", &[]), module("y", &[]), module("z", &[])];
    assert!(sort_modules_by_dependencies(&mut modules).is_ok());
    assert_eq!(names(&modules), vec!["x", "y", "z"]);
}

#[test]
fn test_sort_shared_dependency_once() {
    let mut modules = vec![module("app", &["lib", "util"]), module("lib", &["util"]), module("util", &[])];
    assert!(sort_modules_by_dependencies(&mut modules).is_ok());
    assert_eq!(names(&modules), vec!["util", "lib", "app"]);
}

#[test]
fn test_sort_skips_unknown_dependency() {
    let mut modules = vec![module("a", &["missing"]), module("b", &[])];
    assert!(sort_modules_by_dependencies(&mut modules).is_ok());
    assert_eq!(names(&modules), vec!["a", "b"]);
}

#[test]
fn test_sort_reports_cycle() {
    let mut modules = vec![module("a", &["b"]), module("b", &["a"])];
    match sort_modules_by_dependencies(&mut modules) {
        Err(BuildError::CircularDependency(m)) => {
            assert_eq!(m, "Circular dependency detected involving module: a");
        }
        _ => panic!("expected a circular dependency"),
    }
    assert_eq!(names(&modules), vec!["a", "b"]);
}

#[test]
fn test_sort_reports_self_dependency() {
    let mut modules = vec![module("solo", &["solo"])];
    match sort_modules_by_dependencies(&mut modules) {
        Err(BuildError::CircularDependency(m)) => {
            assert_eq!(m, "Circular dependency detected involving module: solo");
        }
        _ => panic!("expected a circular dependency"),
    }
}

#[test]
fn test_sort_empty() {
    let mut modules: Vec<Module> = Vec::new();
    assert!(sort_modules_by_dependencies(&mut modules).is_ok());
    assert!(modules.is_empty());
}
