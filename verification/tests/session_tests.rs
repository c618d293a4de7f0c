use metadol::codegen::crate_gen::{CrateCodegen, CrateConfig};
use metadol::mcp::server::McpServer;
use metadol::network::discovery::ResourceType;
use metadol::repl::session::{OutputFormat, ReplSession, SessionConfig, SessionError};

#[test]
fn test_session_new() {
    let session = ReplSession::new();
    assert_eq!(session.config().name, "default");
    assert_eq!(session.eval_count(), 0);
}

#[test]
fn test_session_config_builder() {
    let config = SessionConfig::with_name("test")
        .with_tree_shaking(true)
        .with_optimization(true)
        .verbose();
    assert_eq!(config.name, "test");
    assert!(config.tree_shaking);
    assert!(config.optimize);
    assert!(config.verbose);
}

#[test]
fn test_session_counts() {
    let mut session = ReplSession::new();
    session.record_success();
    session.record_success();
    session.record_error();
    assert_eq!(session.eval_count(), 3);
    assert_eq!(session.success_count(), 2);
    assert_eq!(session.error_count(), 1);
}

#[test]
fn test_session_config_defaults() {
    let config = SessionConfig::default();
    assert_eq!(config.name, "default");
    assert!(config.tree_shaking);
    assert!(!config.optimize);
    assert!(config.debug_info);
    assert!(!config.auto_save);
    assert_eq!(config.session_file, None);
    assert_eq!(config.max_history, 1000);
    assert!(!config.verbose);
    assert_eq!(config.output_format, OutputFormat::Pretty);
}

#[test]
fn test_session_file_turns_on_auto_save() {
    let config = SessionConfig::with_name("s").with_session_file("/tmp/s.session");
    assert_eq!(config.session_file.as_deref(), Some("/tmp/s.session"));
    assert!(config.auto_save);
}

#[test]
fn test_session_error_messages() {
    assert_eq!(SessionError::NoSessionFile.message(), "No session file configured");
    assert_eq!(SessionError::Io("x".to_string()).message(), "I/O error: x");
    assert_eq!(SessionError::Parse("y".to_string()).message(), "Parse error: y");
}

#[test]
fn test_default_config() {
    let config = CrateConfig::default();
    assert_eq!(config.crate_name, "dol_generated");
    assert_eq!(config.crate_version, "0.1.0");
}

#[test]
fn test_crate_codegen_new() {
    let codegen = CrateCodegen::new("test_output");
    assert_eq!(codegen.config.output_dir, "test_output");
    assert_eq!(codegen.config.crate_name, "dol_generated");
}

#[test]
fn test_server_creation() {
    let server = McpServer::new();
    assert_eq!(server.name, "metadol-mcp");
    assert!(!server.version.is_empty());
}

#[test]
fn test_manifest() {
    let server = McpServer::new();
    let manifest = server.manifest();

    assert_eq!(manifest.name, "metadol-mcp");
    assert!(!manifest.tools.is_empty());

    assert!(manifest.tools.iter().any(|t| t.name == "parse"));
}

#[test]
fn test_manifest_lists_every_tool_once() {
    let manifest = McpServer::new().manifest();
    assert_eq!(manifest.tools.len(), 14);
    for (i, a) in manifest.tools.iter().enumerate() {
        for b in manifest.tools.iter().skip(i + 1) {
            assert_ne!(a.name, b.name);
        }
    }
}

#[test]
fn test_resource_type() {
    let res = ResourceType::new("nutrient");
    assert_eq!(res.name(), "nutrient");

    let res2: ResourceType = "water".into();
    assert_eq!(res2.name(), "water");
}

#[test]
fn test_session_save_text_and_reload() {
    let mut session = ReplSession::with_config(SessionConfig::with_name("work").with_session_file("/tmp/work.session"));
    session.record_success();
    session.record_error();
    let (path, text) = session.save_text().unwrap();
    assert_eq!(path, "/tmp/work.session");
    assert_eq!(text, "name=work\neval_count=2\nsuccess_count=1\nerror_count=1\n");

    let loaded = ReplSession::from_saved(&path, &text);
    assert_eq!(loaded.config().name, "work");
    assert_eq!(loaded.config().session_file.as_deref(), Some("/tmp/work.session"));
    assert!(loaded.config().auto_save);
    assert_eq!(loaded.eval_count(), 2);
    assert_eq!(loaded.success_count(), 1);
    assert_eq!(loaded.error_count(), 1);
}

#[test]
fn test_session_save_without_file() {
    let session = ReplSession::new();
    assert!(matches!(session.save_text(), Err(SessionError::NoSessionFile)));
}

#[test]
fn test_session_from_saved_tolerates_junk() {
    let loaded = ReplSession::from_saved("p", "junk\n eval_count = 7 \nerror_count=x\nname= a=b \r\n");
    assert_eq!(loaded.config().name, "a=b");
    assert_eq!(loaded.eval_count(), 7);
    assert_eq!(loaded.success_count(), 0);
    assert_eq!(loaded.error_count(), 0);
    let empty = ReplSession::from_saved("p", "");
    assert_eq!(empty.config().name, "loaded");
}

#[test]
fn test_session_round_trip_keeps_inner_equals_and_spaces() {
    let mut session =
        ReplSession::with_config(SessionConfig::with_name("my a=b session").with_session_file("s.txt"));
    for _ in 0..12 {
        session.record_success();
    }
    session.record_error();
    let (path, text) = session.save_text().unwrap();
    let loaded = ReplSession::from_saved(&path, &text);
    assert_eq!(loaded.config().name, "my a=b session");
    assert_eq!(loaded.eval_count(), 13);
    assert_eq!(loaded.success_count(), 12);
    assert_eq!(loaded.error_count(), 1);
}
