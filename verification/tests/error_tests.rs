use metadol::ast::Span;
use metadol::error::{AbiError, LexError, ParseError, ValidationError, ValidationErrors, ValidationWarning};

#[test]
fn test_lex_error_display() {
    let error = LexError::UnexpectedChar { ch: '$', span: Span::new(10, 11, 2, 5) };
    let msg = error.message();
    assert!(msg.contains("$"));
    assert!(msg.contains("line 2"));
    assert!(msg.contains("column 5"));
}

#[test]
fn test_parse_error_display() {
    let error = ParseError::UnexpectedToken {
        expected: "identifier".to_string(),
        found: "'gene'".to_string(),
        span: Span::new(0, 4, 1, 1),
    };
    let msg = error.message();
    assert!(msg.contains("expected identifier"));
    assert!(msg.contains("'gene'"));
}

#[test]
fn test_validation_errors_collection() {
    let mut errors = ValidationErrors::new();
    assert!(errors.is_empty());
    errors.add_error(ValidationError::InvalidIdentifier {
        name: "invalid".to_string(),
        reason: "Invalid identifier".to_string(),
    });
    assert!(!errors.has_warnings());
    errors.add_warning(ValidationWarning::ShortExegesis { length: 10, span: Span::default() });
    assert!(errors.has_warnings());
}

#[test]
fn test_abi_error_invalid_pointer() {
    let error = AbiError::InvalidPointer;
    assert_eq!(error.message(), "Invalid pointer");
    assert_eq!(error, AbiError::InvalidPointer);
}

#[test]
fn test_abi_error_out_of_memory() {
    let error = AbiError::OutOfMemory;
    assert_eq!(error.message(), "Out of memory");
}

#[test]
fn test_abi_error_invalid_message() {
    let msg = "malformed data".to_string();
    let error = AbiError::InvalidMessage(msg.clone());
    assert_eq!(error.message(), format!("Invalid message: {}", msg));
}

#[test]
fn test_abi_error_timeout() {
    let error = AbiError::Timeout;
    assert_eq!(error.message(), "Operation timed out");
}

#[test]
fn test_abi_error_effect_failed() {
    let msg = "connection lost".to_string();
    let error = AbiError::EffectFailed(msg.clone());
    assert_eq!(error.message(), format!("Effect failed: {}", msg));
}

#[test]
fn test_abi_error_unknown() {
    let msg = "something went wrong".to_string();
    let error = AbiError::UnknownError(msg.clone());
    assert_eq!(error.message(), format!("Unknown error: {}", msg));
}

#[test]
fn test_abi_error_from_string() {
    let error: AbiError = "test error".to_string().into();
    assert!(matches!(error, AbiError::UnknownError(_)));
    assert_eq!(error.message(), "Unknown error: test error");
}

#[test]
fn test_abi_error_from_str() {
    let error: AbiError = "test error".into();
    assert!(matches!(error, AbiError::UnknownError(_)));
    assert_eq!(error.message(), "Unknown error: test error");
}

#[test]
fn abi_error_parts_round_trip() {
    let errors = vec![
        AbiError::InvalidPointer,
        AbiError::OutOfMemory,
        AbiError::InvalidMessage("msg".to_string()),
        AbiError::Timeout,
        AbiError::EffectFailed("reason".to_string()),
        AbiError::UnknownError("error".to_string()),
    ];
    for e in errors {
        let (kind, message) = e.to_parts();
        let back = AbiError::from_parts(&kind, message).expect("known kind");
        assert_eq!(back.message(), e.message());
    }
    assert!(AbiError::from_parts("Nope", String::new()).is_none());
}

#[test]
fn validation_errors_report_errors() {
    let mut errors = ValidationErrors::new();
    assert!(!errors.has_errors());
    errors.add_error(ValidationError::DuplicateDefinition {
        kind: "gene".to_string(),
        name: "x".to_string(),
    });
    assert!(errors.has_errors());
    assert!(!errors.is_empty());
}
