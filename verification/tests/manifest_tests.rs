use metadol::ast::{ImportSource, Span, Version, Visibility};
use metadol::error::ParseError;
use metadol::manifest::{parse_spirit_manifest, ManifestParser, ModuleExport, SpiritConfig, SpiritManifest};

fn span() -> Span {
    Span { start: 0, end: 0, line: 1, column: 1 }
}

fn manifest(entry: &str, modules: Vec<(Visibility, &str)>) -> SpiritManifest {
    let mut config = SpiritConfig::default();
    config.entry = entry.to_string();
    SpiritManifest {
        name: "mypackage".to_string(),
        version: Version { major: 1, minor: 2, patch: 3, suffix: None },
        docs: None,
        dependencies: Vec::new(),
        config,
        modules: modules
            .into_iter()
            .map(|(visibility, name)| ModuleExport { visibility, name: name.to_string(), span: span() })
            .collect(),
        span: span(),
    }
}

#[test]
fn test_entry_file_default_when_unset() {
    assert_eq!(manifest("", vec![]).entry_file(), "lib.dol");
    assert_eq!(manifest("main.dol", vec![]).entry_file(), "main.dol");
}

#[test]
fn test_qualified_name_with_and_without_suffix() {
    let mut m = manifest("", vec![]);
    assert_eq!(m.qualified_name(), "mypackage @ 1.2.3");
    m.version = Version { major: 0, minor: 10, patch: 0, suffix: Some("alpha".to_string()) };
    assert_eq!(m.qualified_name(), "mypackage @ 0.10.0-alpha");
}

#[test]
fn test_public_modules_in_order() {
    let m = manifest(
        "",
        vec![(Visibility::Public, "a"), (Visibility::Private, "b"), (Visibility::Public, "c")],
    );
    let public = m.public_modules();
    assert_eq!(public.len(), 2);
    assert_eq!(public[0].name, "a");
    assert_eq!(public[1].name, "c");
}

#[test]
fn test_parse_minimal_manifest() {
    let source = r#"
spirit test @ 0.1.0
"#;
    let manifest = parse_spirit_manifest(source).expect("should parse");
    assert_eq!(manifest.name, "test");
    assert_eq!(manifest.version.major, 0);
    assert_eq!(manifest.version.minor, 1);
    assert_eq!(manifest.version.patch, 0);
}

#[test]
fn test_parse_manifest_with_docs() {
    let source = r#"
spirit container @ 0.9.0

docs "Container management spirit for VUDO"
"#;
    let manifest = parse_spirit_manifest(source).expect("should parse");
    assert_eq!(manifest.name, "container");
    assert_eq!(manifest.docs, Some("Container management spirit for VUDO".to_string()));
}

#[test]
fn test_parse_manifest_with_modules() {
    let source = r#"
spirit myspirit @ 1.0.0

pub mod lib
pub mod types
mod internal
"#;
    let manifest = parse_spirit_manifest(source).expect("should parse");
    assert_eq!(manifest.modules.len(), 3);
    assert_eq!(manifest.modules[0].name, "lib");
    assert_eq!(manifest.modules[0].visibility, Visibility::Public);
    assert_eq!(manifest.modules[1].name, "types");
    assert_eq!(manifest.modules[2].name, "internal");
    assert_eq!(manifest.modules[2].visibility, Visibility::Private);
}

#[test]
fn test_parse_manifest_with_config() {
    let source = r#"
spirit configured @ 2.0.0

config {
    entry: "main.dol"
    target: wasm32
    features: ["async", "gc"]
}
"#;
    let manifest = parse_spirit_manifest(source).expect("should parse");
    assert_eq!(manifest.config.entry, "main.dol");
    assert_eq!(manifest.config.target, "wasm32");
    assert_eq!(manifest.config.features, vec!["async", "gc"]);
}

#[test]
fn test_entry_file_default() {
    let source = r#"spirit test @ 0.1.0"#;
    let manifest = parse_spirit_manifest(source).expect("should parse");
    assert_eq!(manifest.entry_file(), "lib.dol");
}

#[test]
fn test_qualified_name() {
    let source = r#"spirit mypackage @ 1.2.3"#;
    let manifest = parse_spirit_manifest(source).expect("should parse");
    assert_eq!(manifest.qualified_name(), "mypackage @ 1.2.3");
}

#[test]
fn test_public_modules() {
    let source = r#"
spirit test @ 0.1.0
pub mod a
mod b
pub mod c
"#;
    let manifest = parse_spirit_manifest(source).expect("should parse");
    let public = manifest.public_modules();
    assert_eq!(public.len(), 2);
    assert_eq!(public[0].name, "a");
    assert_eq!(public[1].name, "c");
}

#[test]
fn test_manifest_defaults_and_span() {
    let manifest = parse_spirit_manifest("spirit x @ 1.2.3").expect("should parse");
    assert_eq!(manifest.config.entry, "lib.dol");
    assert_eq!(manifest.config.target, "wasm32");
    assert!(manifest.dependencies.is_empty());
    assert_eq!(manifest.span.start, 0);
    assert_eq!(manifest.span.end, 16);
}

#[test]
fn test_manifest_missing_spirit_word() {
    match parse_spirit_manifest("package x @ 1.0.0") {
        Err(ParseError::UnexpectedToken { expected, found, .. }) => {
            assert_eq!(expected, "Spirit");
            assert_eq!(found, "Identifier");
        }
        other => panic!("unexpected result: {:?}", other.is_ok()),
    }
}

#[test]
fn test_manifest_missing_at() {
    match parse_spirit_manifest("spirit x 1.0.0") {
        Err(ParseError::UnexpectedToken { expected, found, .. }) => {
            assert_eq!(expected, "At");
            assert_eq!(found, "Version");
        }
        other => panic!("unexpected result: {:?}", other.is_ok()),
    }
}

#[test]
fn test_manifest_local_and_registry_dependencies() {
    let source = "spirit app @ 1.0.0\nuse core.io\nuse @univrs/std.collections @ ^1.2.3\n";
    let manifest = parse_spirit_manifest(source).expect("should parse");
    assert_eq!(manifest.dependencies.len(), 2);
    assert!(matches!(manifest.dependencies[0].source, ImportSource::Local));
    assert_eq!(manifest.dependencies[0].path, vec!["core", "io"]);
    assert_eq!(manifest.dependencies[0].version_constraint, None);
    match &manifest.dependencies[1].source {
        ImportSource::Registry { org, package, version } => {
            assert_eq!(org, "univrs");
            assert_eq!(package, "std");
            assert_eq!(*version, None);
        }
        _ => panic!("expected a registry source"),
    }
    assert_eq!(manifest.dependencies[1].path, vec!["collections"]);
    assert_eq!(manifest.dependencies[1].version_constraint, Some("^1.2.3".to_string()));
}

#[test]
fn test_manifest_git_dependency_and_unknown_config_key() {
    let source = "spirit app @ 1.0.0\nuse @git:github.com/univrs/dol:main\nconfig { opt: { a { b } } target: x86 }\n";
    let manifest = parse_spirit_manifest(source).expect("should parse");
    match &manifest.dependencies[0].source {
        ImportSource::Git { url, reference } => {
            assert_eq!(url, "github.com/univrs/dol");
            assert_eq!(reference.as_deref(), Some("main"));
        }
        _ => panic!("expected a git source"),
    }
    assert_eq!(manifest.config.target, "x86");
    assert_eq!(manifest.config.entry, "lib.dol");
}

#[test]
fn test_manifest_parser_new_parse() {
    let mut parser = ManifestParser::new("spirit a @ 0.0.1 exegesis \"hello\"");
    let manifest = parser.parse().expect("should parse");
    assert_eq!(manifest.docs, Some("hello".to_string()));
    assert_eq!(manifest.version.patch, 1);
}
