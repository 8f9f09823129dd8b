//! Detached-payload JSON Web Signatures (RFC 7515) for the ES512 algorithm:
//! a signer that builds a compact JWS for a JSON payload from an EC P-521
//! private key, and a verifier that checks a detached `header..signature`
//! against a payload and a key set resolved from a trusted URL.
//!
//! Compact serializations are handled as byte strings: every segment is
//! base64url without padding, so the serialized forms are plain ASCII.

pub mod b64;
pub mod errors;
pub mod sig_codec;
pub mod signer;
pub mod verify_webhook;
