use vstd::prelude::*;

verus! {

/// Error handling for the library.
///
/// Structural errors signal malformed, truncated or adversarial input; they
/// are always surfaced to the caller as the `Err` side of a `Result`. A
/// structurally valid but unauthentic or expired token is *not* an error:
/// that distinction is carried by `TokenOutcome` instead.
#[derive(Debug, Clone, Copy, PartialEq, Eq, Structural)]
pub enum LiteSessionError {
    /// The `nonce` length is not valid: it must be 12 bytes (96 bits).
    NonceLengthError,
    /// The provided server key length is not valid: it must be 32 bytes
    /// (256 bits).
    ServerKeyLengthError,
    /// The token handed in for parsing is larger than the 1 MiB bound; a
    /// larger token is rejected before any parsing work is done.
    TokenSizeTooLarge,
    /// The token does not split into exactly the expected number of fields,
    /// indicating a tampered or corrupted token.
    TokenFieldsLengthError,
    /// The decrypted data portion does not split into exactly the expected
    /// number of fields, indicating a tampered or corrupted token.
    DataFieldsLengthError,
    /// A field that must be hexadecimal text is not valid hexadecimal.
    InvalidHexString,
    /// A timestamp field does not decode to a valid fixed-width timestamp.
    InvalidTai64NTime,
    /// The carried authentication tag does not decode to a 32-byte digest.
    InvalidBytesForBlake3,
    /// The decrypted bytes are not valid UTF-8 text. This usually happens
    /// when the key or the nonce (or both) used for decryption are wrong,
    /// resulting in a bad decryption.
    FromUtf8TokenError,
}

} // verus!
