//! Checks on Spirit-to-Spirit messages.
//!
//! A message names its sender and receiver by Spirit identifiers, which
//! must be non-empty and made of alphanumeric characters, dots, hyphens
//! and underscores; a binary payload may hold at most 10 MB. The message
//! types themselves, whose header carries a floating-point timestamp and
//! whose payload may hold JSON, and their encodings belong to the host
//! program.

use vstd::prelude::*;

use crate::error::AbiError;
use crate::text::{alphanumeric, chars_of, is_alphanumeric, owned};

verus! {

/// A character allowed in a Spirit identifier.
pub open spec fn spirit_id_char(c: char) -> bool {
    alphanumeric(c) || c == '.' || c == '-' || c == '_'
}

/// Every character of `id` is allowed in a Spirit identifier.
pub open spec fn valid_spirit_chars(id: Seq<char>) -> bool {
    forall|i: int| 0 <= i < id.len() ==> spirit_id_char(#[trigger] id[i])
}

/// The error on a sender and a receiver, if any: emptiness is checked
/// first (sender, then receiver), then the characters.
pub open spec fn spirit_ids_error(sender: Seq<char>, receiver: Seq<char>) -> Option<Seq<char>> {
    if sender.len() == 0 {
        Some("sender cannot be empty"@)
    } else if receiver.len() == 0 {
        Some("receiver cannot be empty"@)
    } else if !valid_spirit_chars(sender) {
        Some("sender '"@ + sender + "' contains invalid characters"@)
    } else if !valid_spirit_chars(receiver) {
        Some("receiver '"@ + receiver + "' contains invalid characters"@)
    } else {
        None
    }
}

/// The largest binary payload, in bytes.
pub const MAX_BINARY_SIZE: usize = 10485760;

/// Whether every character of `id` is allowed in a Spirit identifier.
fn all_spirit_chars(id: &str) -> (r: bool)
    ensures
        r == valid_spirit_chars(id@),
{
    let cs = chars_of(id);
    let mut i: usize = 0;
    while i < cs.len()
        invariant
            i <= cs@.len(),
            cs@ == id@,
            forall|j: int| 0 <= j < i ==> spirit_id_char(#[trigger] cs@[j]),
        decreases cs.len() - i,
    {
        let c = cs[i];
        if !(is_alphanumeric(c) || c == '.' || c == '-' || c == '_') {
            assert(!spirit_id_char(cs@[i as int]));
            return false;
        }
        i = i + 1;
    }
    true
}

/// Validates the sender and receiver of a message header: both non-empty
/// and made of alphanumeric characters, `.`, `-` and `_`.
pub fn validate_spirit_ids(sender: &str, receiver: &str) -> (r: Result<(), AbiError>)
    ensures
        match spirit_ids_error(sender@, receiver@) {
            None => r is Ok,
            Some(m) => r matches Err(AbiError::InvalidMessage(x)) && x@ == m,
        },
{
    let sc = chars_of(sender);
    let rc = chars_of(receiver);
    if sc.len() == 0 {
        return Err(AbiError::InvalidMessage(owned("sender cannot be empty")));
    }
    if rc.len() == 0 {
        return Err(AbiError::InvalidMessage(owned("receiver cannot be empty")));
    }
    if !all_spirit_chars(sender) {
        let mut m = owned("sender '");
        m.append(sender);
        m.append("' contains invalid characters");
        return Err(AbiError::InvalidMessage(m));
    }
    if !all_spirit_chars(receiver) {
        let mut m = owned("receiver '");
        m.append(receiver);
        m.append("' contains invalid characters");
        return Err(AbiError::InvalidMessage(m));
    }
    Ok(())
}

/// Validates the size of a binary payload of `len` bytes: at most
/// [`MAX_BINARY_SIZE`].
pub fn validate_binary_len(len: usize) -> (r: Result<(), AbiError>)
    ensures
        len <= MAX_BINARY_SIZE ==> r is Ok,
        len > MAX_BINARY_SIZE ==> (r matches Err(AbiError::InvalidMessage(x)) && x@
            == "binary payload exceeds maximum size of 10485760 bytes"@),
{
    if len > MAX_BINARY_SIZE {
        Err(AbiError::InvalidMessage(owned("binary payload exceeds maximum size of 10485760 bytes")))
    } else {
        Ok(())
    }
}

} // verus!
