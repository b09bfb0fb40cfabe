use vstd::prelude::*;

verus! {

/// The ways in which building or reading a compact token can fail.
#[derive(Debug, Clone, Copy, PartialEq, Eq, Structural)]
pub enum Error {
    /// The compact string does not have exactly three dot-separated segments.
    MalformedCompactString,
    /// A segment is not valid base64url.
    Base64DecodeError,
    /// A decoded segment is not valid UTF-8.
    Utf8DecodeError,
    /// The header or the body is not the JSON object expected.
    JsonParseError,
    /// The header has no `alg` member.
    MissingRequiredField,
    /// The algorithm cannot be used to sign or verify.
    UnsupportedAlgorithm,
    /// The key material could not be used (malformed PEM, rejected HMAC key).
    KeyParseError,
    /// Wrong algorithm, bad signature or malformed signature: deliberately one outcome.
    InvalidSignature,
}

} // verus!
