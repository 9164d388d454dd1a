//! The failures that the encryption operations report.

use vstd::prelude::*;

verus! {

/// Why an operation refused its input or could not complete.
#[derive(Debug, Clone, Copy, PartialEq, Eq, Structural)]
pub enum CryptoError {
    /// A key, parameter or ciphertext buffer is shorter than its fixed or
    /// minimum size (or, for a master secret, not exactly 32 bytes long).
    InvalidLength,
    /// The attribute count in a ciphertext differs from that of the key.
    AttributeCountMismatch,
    /// Bytes of the right length are not the encoding of a group element.
    DecodeError,
    /// The operating system could not supply random bytes.
    EntropyUnavailable,
    /// A policy names no attribute at all.
    EmptyPolicy,
    /// A policy names more attributes than the one-byte count can hold.
    TooManyAttributes,
}

impl CryptoError {
    /// A sentence that says what went wrong.
    pub fn message(&self) -> (text: &'static str)
        ensures
            text@ == match self {
                CryptoError::InvalidLength => "a key, parameter or ciphertext has the wrong length"@,
                CryptoError::AttributeCountMismatch => "the ciphertext and the key differ in their number of attributes"@,
                CryptoError::DecodeError => "the bytes are not the encoding of a group element"@,
                CryptoError::EntropyUnavailable => "the operating system supplied no random bytes"@,
                CryptoError::EmptyPolicy => "the policy names no attribute"@,
                CryptoError::TooManyAttributes => "the policy names more than 255 attributes"@,
            },
    {
        match self {
            CryptoError::InvalidLength => "a key, parameter or ciphertext has the wrong length",
            CryptoError::AttributeCountMismatch => "the ciphertext and the key differ in their number of attributes",
            CryptoError::DecodeError => "the bytes are not the encoding of a group element",
            CryptoError::EntropyUnavailable => "the operating system supplied no random bytes",
            CryptoError::EmptyPolicy => "the policy names no attribute",
            CryptoError::TooManyAttributes => "the policy names more than 255 attributes",
        }
    }
}

} // verus!
