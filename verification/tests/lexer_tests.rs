use metadol::lexer::{Lexer, TokenKind};

#[test]
fn test_keywords() {
    let mut lexer = Lexer::new("gene trait constraint");
    assert_eq!(lexer.next_token().kind, TokenKind::Gene);
    assert_eq!(lexer.next_token().kind, TokenKind::Trait);
    assert_eq!(lexer.next_token().kind, TokenKind::Constraint);
}

#[test]
fn test_qualified_identifier() {
    let mut lexer = Lexer::new("container.exists");
    let token = lexer.next_token();
    assert_eq!(token.kind, TokenKind::Identifier);
    assert_eq!(token.lexeme, "container.exists");
}

#[test]
fn test_version() {
    let mut lexer = Lexer::new("0.0.1");
    let token = lexer.next_token();
    assert_eq!(token.kind, TokenKind::Version);
    assert_eq!(token.lexeme, "0.0.1");
}

#[test]
fn test_string() {
    let mut lexer = Lexer::new(r#""hello world""#);
    let token = lexer.next_token();
    assert_eq!(token.kind, TokenKind::String);
    assert_eq!(token.lexeme, "hello world");
}

#[test]
fn test_operators() {
    let mut lexer = Lexer::new("@ > >=");
    assert_eq!(lexer.next_token().kind, TokenKind::At);
    assert_eq!(lexer.next_token().kind, TokenKind::Greater);
    assert_eq!(lexer.next_token().kind, TokenKind::GreaterEqual);
}

#[test]
fn test_comments() {
    let mut lexer = Lexer::new("gene // comment\ncontainer");
    assert_eq!(lexer.next_token().kind, TokenKind::Gene);
    assert_eq!(lexer.next_token().kind, TokenKind::Identifier);
}

#[test]
fn lexer_reports_unknown_characters() {
    let mut lexer = Lexer::new("$ gene");
    let t = lexer.next_token();
    assert_eq!(t.kind, TokenKind::Error);
    assert_eq!(t.lexeme, "$");
    assert_eq!(lexer.next_token().kind, TokenKind::Gene);
    assert_eq!(lexer.next_token().kind, TokenKind::Eof);
    assert_eq!(lexer.errors().len(), 1);
}

#[test]
fn lexer_unterminated_string_and_escapes() {
    let mut lexer = Lexer::new(r#""a\nb""#);
    let t = lexer.next_token();
    assert_eq!(t.kind, TokenKind::String);
    assert_eq!(t.lexeme, "a\nb");
    let mut lexer = Lexer::new("\"open");
    assert_eq!(lexer.next_token().kind, TokenKind::Error);
    assert_eq!(lexer.errors().len(), 1);
}

#[test]
fn lexer_spans_track_lines_and_columns() {
    let mut lexer = Lexer::new("gene\n  trait");
    let a = lexer.next_token();
    assert_eq!((a.span.start, a.span.end, a.span.line, a.span.column), (0, 4, 1, 1));
    let b = lexer.next_token();
    assert_eq!((b.span.start, b.span.end, b.span.line, b.span.column), (7, 12, 2, 3));
}

#[test]
fn lexer_version_needs_two_dots() {
    let mut lexer = Lexer::new("1.2 3.4.5.6");
    let t = lexer.next_token();
    assert_eq!(t.kind, TokenKind::Identifier);
    assert_eq!(t.lexeme, "1.2");
    let v = lexer.next_token();
    assert_eq!(v.kind, TokenKind::Version);
    assert_eq!(v.lexeme, "3.4.5");
}

#[test]
fn lexer_iterator_stops_at_end() {
    let mut lexer = Lexer::new("gene x");
    assert!(lexer.next().is_some());
    assert!(lexer.next().is_some());
    assert!(lexer.next().is_none());
}

#[test]
fn test_eof_repeats_at_same_place() {
    let mut lexer = Lexer::new("gene  // trailing comment");
    assert_eq!(lexer.next_token().kind, TokenKind::Gene);
    let first = lexer.next_token();
    let second = lexer.next_token();
    assert_eq!(first.kind, TokenKind::Eof);
    assert_eq!(second.kind, TokenKind::Eof);
    assert_eq!(first.span, second.span);
    assert_eq!(second.lexeme, "");
    assert!(lexer.errors().is_empty());
}

#[test]
fn test_punctuation_outside_the_grammar_is_an_error() {
    let mut lexer = Lexer::new("a:b");
    let a = lexer.next_token();
    assert_eq!(a.kind, TokenKind::Identifier);
    assert_eq!(a.lexeme, "a");
    let colon = lexer.next_token();
    assert_eq!(colon.kind, TokenKind::Error);
    assert_eq!(colon.lexeme, ":");
    assert_eq!(lexer.errors().len(), 1);
    assert_eq!(lexer.next_token().lexeme, "b");
}

#[test]
fn test_spans_count_bytes() {
    let mut lexer = Lexer::new("é gene");
    let first = lexer.next_token();
    assert_eq!(first.kind, TokenKind::Identifier);
    assert_eq!((first.span.start, first.span.end), (0, 2));
    let second = lexer.next_token();
    assert_eq!(second.kind, TokenKind::Gene);
    assert_eq!((second.span.start, second.span.end), (3, 7));
    let eof = lexer.next_token();
    assert_eq!(eof.kind, TokenKind::Eof);
    assert_eq!((eof.span.start, eof.span.end), (7, 7));
}

#[test]
fn test_keyword_table_reads_back_keywords() {
    let lexer = Lexer::new("");
    for kind in [TokenKind::Gene, TokenKind::Exegesis, TokenKind::Never, TokenKind::No] {
        assert!(kind.is_keyword());
        assert_eq!(lexer.keyword_kind(kind.describe()), Some(kind));
    }
    for kind in [TokenKind::LeftBrace, TokenKind::Identifier, TokenKind::Eof] {
        assert!(!kind.is_keyword());
        assert_eq!(lexer.keyword_kind(kind.describe()), None);
    }
}

#[test]
fn test_lexer_reaches_eof_within_length_and_stays() {
    let source = "gene a.b { x has y } @ >= 1.2.3 \"s\" ?";
    let mut lexer = Lexer::new(source);
    let mut count = 0;
    loop {
        let tok = lexer.next_token();
        count += 1;
        assert!(count <= source.chars().count() + 1);
        if tok.kind == TokenKind::Eof {
            assert_eq!(tok.span.start, source.len());
            assert_eq!(tok.span.end, source.len());
            break;
        }
        assert!(tok.span.start < tok.span.end);
    }
    for _ in 0..3 {
        assert_eq!(lexer.next_token().kind, TokenKind::Eof);
    }
}
