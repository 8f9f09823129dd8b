use vstd::prelude::*;

verus! {

/// A header claim that the verifier requires before it can resolve a key.
#[derive(Clone, Copy, Debug, PartialEq, Eq, Structural)]
pub enum Claim {
    /// The `jku` claim: the URL of the key set.
    Jku,
    /// The `kid` claim: the identifier of the verification key.
    Kid,
}

/// Everything that can go wrong while producing or checking a JWS.
///
/// Every operation of this crate reports failure through this type; none
/// aborts the process. A signature that fails to check and a signature
/// segment that fails to decode are deliberately reported by the same
/// variant, `SignatureInvalid`, so that a forger learns nothing from the
/// distinction.
#[derive(Clone, Copy, Debug, PartialEq, Eq, Structural)]
pub enum JwsError {
    /// Input that is not base64url without padding: a byte outside the
    /// URL-safe alphabet, a padding character, or non-zero residual bits.
    MalformedEncoding,
    /// A compact serialization without the expected segment structure, or a
    /// header that is not a JSON object.
    MalformedJws,
    /// The header lacks the named claim.
    MissingClaim(Claim),
    /// The header names a key-set URL outside the allow-list.
    UntrustedKeySetUrl,
    /// The key set holds no key with the requested identifier.
    KeyNotFound,
    /// The key resolver could not produce the key set.
    KeyResolutionFailed,
    /// The signing key is not bound to curve P-521.
    UnsupportedCurve,
    /// The key failed a structural validity check, or the signing primitive
    /// rejected it.
    InvalidKey,
    /// The signature does not check against the resolved key, or could not
    /// be decoded at the verification stage.
    SignatureInvalid,
}

impl JwsError {
    /// A short human-readable description of the failure.
    pub fn message(&self) -> &'static str {
        match self {
            JwsError::MalformedEncoding => "input is not unpadded base64url",
            JwsError::MalformedJws => "malformed compact JWS",
            JwsError::MissingClaim(Claim::Jku) => "missing header claim: jku",
            JwsError::MissingClaim(Claim::Kid) => "missing header claim: kid",
            JwsError::UntrustedKeySetUrl => "key-set URL is not in the allow-list",
            JwsError::KeyNotFound => "no key with the requested kid",
            JwsError::KeyResolutionFailed => "the key set could not be resolved",
            JwsError::UnsupportedCurve => "the signing key is not a P-521 key",
            JwsError::InvalidKey => "the key failed its validity check",
            JwsError::SignatureInvalid => "the signature did not verify",
        }
    }
}

} // verus!
