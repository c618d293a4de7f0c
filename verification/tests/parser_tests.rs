use metadol::ast::{Declaration, Quantifier, Statement};
use metadol::error::ParseError;
use metadol::parser::Parser;

#[test]
fn test_parse_gene() {
    let input = r#"
gene container.exists {
  container has identity
  container has state
}

exegesis {
  A container is fundamental.
}
"#;
    let mut parser = Parser::new(input);
    let result = parser.parse();
    assert!(result.is_ok(), "Parse error: {:?}", result.err());
    if let Declaration::Gene(gene) = result.unwrap() {
        assert_eq!(gene.name, "container.exists");
        assert_eq!(gene.statements.len(), 2);
    } else {
        panic!("Expected Gene");
    }
}

#[test]
fn test_parse_trait() {
    let input = r#"
trait container.lifecycle {
  uses container.exists
  container is created
}

exegesis {
  Lifecycle management.
}
"#;
    let mut parser = Parser::new(input);
    let result = parser.parse();
    assert!(result.is_ok());
}

#[test]
fn test_missing_exegesis() {
    let input = r#"
gene container.exists {
  container has identity
}
"#;
    let mut parser = Parser::new(input);
    let result = parser.parse();
    assert!(result.is_err());
    if let Err(ParseError::MissingExegesis { .. }) = result {
    } else {
        panic!("Expected MissingExegesis error");
    }
}

#[test]
fn parser_reads_exegesis_text_and_span() {
    let input = "gene a.b {\n  a has c\n}\n\nexegesis {\n  Text about genes.\n}\n";
    let mut parser = Parser::new(input);
    match parser.parse().unwrap() {
        Declaration::Gene(g) => {
            assert_eq!(g.exegesis, "Text about genes.");
            assert_eq!(g.span.start, 0);
            assert_eq!(g.span.line, 1);
        }
        _ => panic!("Expected Gene"),
    }
}

#[test]
fn parser_nested_braces_in_exegesis_leave_trailing_tokens() {
    // The token stream is skipped up to the first closing brace, so the
    // words after a nested block are read as trailing input.
    let input = "gene a.b {\n  a has c\n}\n\nexegesis {\n  Text with {nested} braces.\n}\n";
    let mut parser = Parser::new(input);
    match parser.parse() {
        Err(ParseError::UnexpectedToken { expected, found, .. }) => {
            assert_eq!(expected, "end of file");
            assert_eq!(found, "'braces'");
        }
        other => panic!("Expected an unexpected-token error, got {:?}", other),
    }
}

#[test]
fn parser_statement_forms() {
    let input = r#"
constraint c.rules {
  subject derives from origin
  subject requires thing
  subject never sleeps
  x matches y
  each transition emits event
}

exegesis {
  Rules.
}
"#;
    let mut parser = Parser::new(input);
    match parser.parse().unwrap() {
        Declaration::Constraint(c) => {
            assert_eq!(c.statements.len(), 5);
            match &c.statements[4] {
                Statement::Quantified { quantifier, phrase, .. } => {
                    assert_eq!(*quantifier, Quantifier::Each);
                    assert_eq!(phrase, "transition emits event");
                }
                _ => panic!("Expected quantified"),
            }
            match &c.statements[0] {
                Statement::DerivesFrom { subject, origin, .. } => {
                    assert_eq!(subject, "subject");
                    assert_eq!(origin, "origin");
                }
                _ => panic!("Expected derives"),
            }
            match &c.statements[2] {
                Statement::Never { subject, action, .. } => {
                    assert_eq!(subject, "subject");
                    assert_eq!(action, "sleeps");
                }
                _ => panic!("Expected never"),
            }
        }
        _ => panic!("Expected Constraint"),
    }
}

#[test]
fn parser_quantified_phrase_runs_to_closing_brace() {
    let input = "constraint c.r {\n  each a has b\n  x matches y\n}\nexegesis { r }";
    let mut parser = Parser::new(input);
    match parser.parse().unwrap() {
        Declaration::Constraint(c) => {
            assert_eq!(c.statements.len(), 1);
            match &c.statements[0] {
                Statement::Quantified { phrase, .. } => assert_eq!(phrase, "a has b x matches y"),
                _ => panic!("Expected quantified"),
            }
        }
        _ => panic!("Expected Constraint"),
    }
}

#[test]
fn parser_system_and_evolution() {
    let system = r#"
system univrs.node @ 0.1.0 {
  requires container.lifecycle >= 0.0.2
  node has identity
}

exegesis {
  A node.
}
"#;
    let mut parser = Parser::new(system);
    match parser.parse().unwrap() {
        Declaration::System(s) => {
            assert_eq!(s.name, "univrs.node");
            assert_eq!(s.version, "0.1.0");
            assert_eq!(s.requirements.len(), 1);
            assert_eq!(s.requirements[0].constraint, ">=");
            assert_eq!(s.requirements[0].version, "0.0.2");
            assert_eq!(s.statements.len(), 1);
        }
        _ => panic!("Expected System"),
    }
    let evolution = r#"
evolves container.lifecycle @ 0.0.2 > 0.0.1 {
  adds container is paused
  deprecates container is zombie
  removes container.legacy
  because "pausing is needed"
}

exegesis {
  Pause support.
}
"#;
    let mut parser = Parser::new(evolution);
    match parser.parse().unwrap() {
        Declaration::Evolution(e) => {
            assert_eq!(e.version, "0.0.2");
            assert_eq!(e.parent_version, "0.0.1");
            assert_eq!(e.additions.len(), 1);
            assert_eq!(e.deprecations.len(), 1);
            assert_eq!(e.removals, vec!["container.legacy".to_string()]);
            assert_eq!(e.rationale, Some("pausing is needed".to_string()));
        }
        _ => panic!("Expected Evolution"),
    }
}

#[test]
fn parser_errors() {
    let mut parser = Parser::new("widget x {}");
    match parser.parse() {
        Err(ParseError::InvalidDeclaration { found, .. }) => assert_eq!(found, "widget"),
        other => panic!("unexpected {:?}", other),
    }
    let mut parser = Parser::new("gene x { a b }\nexegesis { t }");
    match parser.parse() {
        Err(ParseError::InvalidStatement { message, .. }) => {
            assert_eq!(message, "expected predicate after 'a b'")
        }
        other => panic!("unexpected {:?}", other),
    }
    let mut parser = Parser::new("gene x { a has b }\nexegesis { t }\ngene");
    match parser.parse() {
        Err(ParseError::UnexpectedToken { expected, found, .. }) => {
            assert_eq!(expected, "end of file");
            assert_eq!(found, "'gene'");
        }
        other => panic!("unexpected {:?}", other),
    }
}
