use metadol::error::AbiError;
use metadol::message::{validate_binary_len, validate_spirit_ids, MAX_BINARY_SIZE};

fn invalid(r: Result<(), AbiError>) -> String {
    match r {
        Err(AbiError::InvalidMessage(m)) => m,
        other => panic!("expected an invalid-message error, got {:?}", other),
    }
}

#[test]
fn test_spirit_ids_valid() {
    assert!(validate_spirit_ids("spirit.alice", "spirit-bob_2").is_ok());
    assert!(validate_spirit_ids("étoile", "b").is_ok());
}

#[test]
fn test_spirit_ids_empty() {
    assert_eq!(invalid(validate_spirit_ids("", "b")), "sender cannot be empty");
    assert_eq!(invalid(validate_spirit_ids("a", "")), "receiver cannot be empty");
    assert_eq!(invalid(validate_spirit_ids("", "")), "sender cannot be empty");
}

#[test]
fn test_spirit_ids_invalid_chars() {
    assert_eq!(
        invalid(validate_spirit_ids("spirit alice", "bob")),
        "sender 'spirit alice' contains invalid characters"
    );
    assert_eq!(
        invalid(validate_spirit_ids("alice", "bob@home")),
        "receiver 'bob@home' contains invalid characters"
    );
}

#[test]
fn test_binary_len_limit() {
    assert!(validate_binary_len(0).is_ok());
    assert!(validate_binary_len(MAX_BINARY_SIZE).is_ok());
    assert_eq!(
        invalid(validate_binary_len(MAX_BINARY_SIZE + 1)),
        "binary payload exceeds maximum size of 10485760 bytes"
    );
}
