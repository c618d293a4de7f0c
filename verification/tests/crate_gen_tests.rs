use metadol::ast::{DolFile, ModuleDecl, Span, UseDecl, UseItem, UseItems};
use metadol::codegen::crate_gen::{CrateCodegen, CrateConfig, ModuleInfo};

fn module(name: &str) -> ModuleInfo {
    ModuleInfo {
        name: name.to_string(),
        full_path: format!("dol.{}", name),
        source_path: format!("{}.dol", name),
        dependencies: Vec::new(),
    }
}

#[test]
fn test_lib_rs_content_skips_root_modules() {
    let codegen = CrateCodegen::new("out");
    let modules = vec![module("lexer"), module("main"), module("mod"), module("parser")];
    assert_eq!(
        codegen.lib_rs_content(&modules),
        "//! DOL Generated Crate\n//! Do not edit manually - regenerate from DOL source\n\nuse std::collections::HashMap;\n\npub mod compat;\n\npub mod lexer;\npub mod parser;\n\npub mod prelude;\n"
    );
}

#[test]
fn test_prelude_rs_content() {
    let codegen = CrateCodegen::new("out");
    let modules = vec![module("lexer"), module("main")];
    assert_eq!(
        codegen.prelude_rs_content(&modules),
        "//! Prelude - common re-exports\n\npub use crate::compat::*;\n\npub use crate::lexer::*;\n"
    );
}

#[test]
fn test_cargo_toml_content() {
    let codegen = CrateCodegen::with_config(CrateConfig {
        crate_name: "stage".to_string(),
        crate_version: "1.2.3".to_string(),
        output_dir: "x".to_string(),
    });
    assert_eq!(
        codegen.cargo_toml_content(),
        "[package]\nname = \"stage\"\nversion = \"1.2.3\"\nedition = \"2021\"\n\n[dependencies]\n"
    );
}

#[test]
fn test_sibling_imports() {
    let codegen = CrateCodegen::new("out");
    let modules = vec![module("lexer"), module("parser"), module("dol"), module("main")];
    assert_eq!(
        codegen.gen_sibling_imports(&modules[0], &modules),
        "#[allow(unused_imports)]\nuse crate::compat::*;\nuse crate::parser::*;\n"
    );
}

#[test]
fn test_output_path() {
    let codegen = CrateCodegen::new("stage2");
    assert_eq!(codegen.output_path("src/lib.rs"), "stage2/src/lib.rs");
}

#[test]
fn test_dol_file_default() {
    let file = DolFile {
        module: None,
        uses: Vec::new(),
        declarations: Vec::new(),
    };
    assert!(file.module.is_none());
    assert!(file.uses.is_empty());
    assert!(file.declarations.is_empty());
}

fn span0() -> Span {
    Span { start: 0, end: 0, line: 1, column: 1 }
}

fn use_decl(path: &[&str], items: UseItems) -> UseDecl {
    UseDecl { path: path.iter().map(|s| s.to_string()).collect(), items, alias: None, span: span0() }
}

#[test]
fn test_analyze_module_names_and_dependencies() {
    let codegen = CrateCodegen::new("out");
    let file = DolFile {
        module: Some(ModuleDecl { path: vec!["dol".to_string(), "lexer".to_string()], span: span0() }),
        uses: vec![
            use_decl(&["dol", "token"], UseItems::All),
            use_decl(&["std", "io"], UseItems::Single),
            use_decl(&["dol", "token", "Span"], UseItems::Single),
            use_decl(&["dol", "ast"], UseItems::Single),
            use_decl(&["dol"], UseItems::All),
        ],
        declarations: Vec::new(),
    };
    let info = codegen.analyze_module("src/lexer.dol", &file);
    assert_eq!(info.name, "lexer");
    assert_eq!(info.full_path, "dol.lexer");
    assert_eq!(info.source_path, "src/lexer.dol");
    assert_eq!(info.dependencies, vec!["token", "ast"]);

    let bare = DolFile { module: None, uses: Vec::new(), declarations: Vec::new() };
    let info = codegen.analyze_module("dir/parser.dol", &bare);
    assert_eq!(info.name, "parser");
    assert_eq!(info.full_path, "parser");
    assert!(info.dependencies.is_empty());
}

#[test]
fn test_resolve_and_generate_imports() {
    let codegen = CrateCodegen::new("out");
    let named = UseItems::Named(vec![
        UseItem { name: "Token".to_string(), alias: None },
        UseItem { name: "Span".to_string(), alias: Some("S".to_string()) },
    ]);
    assert_eq!(codegen.resolve_import(&use_decl(&["dol", "token"], UseItems::All)), "use crate::token::*;");
    assert_eq!(codegen.resolve_import(&use_decl(&["dol", "ast"], UseItems::Single)), "use crate::ast;");
    assert_eq!(
        codegen.resolve_import(&use_decl(&["dol", "token"], named)),
        "use crate::token::{ Token, Span };"
    );
    assert_eq!(codegen.resolve_import(&use_decl(&["std", "io"], UseItems::All)), "use std::io;");
    let file = DolFile {
        module: None,
        uses: vec![
            use_decl(&["dol", "ast"], UseItems::Single),
            use_decl(&["std", "io"], UseItems::Single),
            use_decl(&["dol", "ast"], UseItems::Single),
        ],
        declarations: Vec::new(),
    };
    assert_eq!(codegen.gen_imports(&file), "use crate::ast;\nuse std::io;\n");
}
