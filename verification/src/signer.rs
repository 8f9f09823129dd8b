//! The ES512 signer: builds a compact JWS over an arbitrary serialized
//! header and payload with an elliptic-curve P-521 private key. Hashing and
//! the ECDSA primitive come from openssl behind trusted wrappers; the curve
//! check, the fixed-width packing of the signature components and the
//! assembly of the serialized form are verified.

use vstd::prelude::*;
use vstd::string::StringSliceAdditionalSpecFns;

use crate::b64::{b64_encode, base64_encode};
use crate::errors::JwsError;
use crate::sig_codec::encode_ec_signature;

verus! {

/// The numeric identifier openssl assigns to curve P-521 (secp521r1).
pub const NID_SECP521R1: i32 = 716;

/// The `.` separator of compact JWS serializations, as a byte.
pub const DOT: u8 = 0x2e;

/// openssl's elliptic-curve key, carried opaquely inside `SigningKey`.
#[verifier::external_type_specification]
#[verifier::external_body]
#[verifier::reject_recursive_types(T)]
pub struct ExEcKey<T>(openssl::ec::EcKey<T>);

/// openssl's marker for key material that holds the private part.
#[verifier::external_type_specification]
#[verifier::external_body]
pub struct ExPrivate(openssl::pkey::Private);

/// An elliptic-curve private key for ES512 signing, together with the
/// numeric identifier of its curve, recorded once when the key is wrapped
/// so that the curve binding is plain data. The only constructor is
/// `from_ec_key`, so the identifier always comes from openssl itself.
pub struct SigningKey {
    /// The named curve of the key as openssl reports it, in raw numeric
    /// form; `None` when the key is not bound to a named curve.
    pub curve_nid: Option<i32>,
    key: openssl::ec::EcKey<openssl::pkey::Private>,
}

impl SigningKey {
    /// Wrap an elliptic-curve private key for signing.
    ///
    /// Relies on openssl's `EcKeyRef::group` and `EcGroupRef::curve_name`:
    /// the recorded identifier is the key's named curve in raw numeric
    /// form, exactly as openssl reports it.
    #[verifier::external_body]
    pub fn from_ec_key(key: openssl::ec::EcKey<openssl::pkey::Private>) -> SigningKey {
        let curve_nid = match key.group().curve_name() {
            Some(nid) => Some(nid.as_raw()),
            None => None,
        };
        SigningKey { curve_nid, key }
    }

    /// Whether the key is bound to curve P-521.
    pub closed spec fn spec_is_p521(&self) -> bool {
        self.curve_nid == Some(NID_SECP521R1)
    }

    /// Whether the key is bound to curve P-521.
    pub fn is_p521(&self) -> (r: bool)
        ensures
            r == self.spec_is_p521(),
    {
        match self.curve_nid {
            Some(nid) => nid == NID_SECP521R1,
            None => false,
        }
    }
}

/// Bytes that may stand verbatim inside a JSON string literal: no quote,
/// no backslash, no control byte. A hex-and-hyphen key identifier (a UUID)
/// always qualifies.
pub open spec fn json_plain(s: Seq<u8>) -> bool {
    forall|i: int| 0 <= i < s.len() ==> s[i] != 0x22 && s[i] != 0x5c && s[i] >= 0x20
}

/// The serialized signing header: exactly `{"alg":"ES512","kid":"<kid>"}`.
pub open spec fn es512_header_of(kid: Seq<u8>) -> Seq<u8> {
    "{\"alg\":\"ES512\",\"kid\":\"".spec_bytes() + kid + "\"}".spec_bytes()
}

/// Serialize the signing header for a key identifier, byte for byte
/// `{"alg":"ES512","kid":"<kid>"}`. The identifier must need no JSON
/// escaping, which a UUID never does.
pub fn es512_header_json(kid: &[u8]) -> (r: Vec<u8>)
    requires
        json_plain(kid@),
    ensures
        r@ == es512_header_of(kid@),
{
    let prefix: &str = "{\"alg\":\"ES512\",\"kid\":\"";
    let suffix: &str = "\"}";
    let mut out = vstd::slice::slice_to_vec(prefix.as_bytes());
    let mut middle = vstd::slice::slice_to_vec(kid);
    out.append(&mut middle);
    let mut end = vstd::slice::slice_to_vec(suffix.as_bytes());
    out.append(&mut end);
    proof {
        assert(out@ =~= es512_header_of(kid@));
    }
    out
}

/// The SHA-512 digest of a byte string: a function of the bytes alone.
pub uninterp spec fn sha512_of(data: Seq<u8>) -> Seq<u8>;

/// Relies on openssl's `hash` with `MessageDigest::sha512`: the digest
/// depends on the input bytes alone and is 64 bytes long. `None` only when
/// openssl itself reports a failure.
#[verifier::external_body]
fn sha512(data: &[u8]) -> (r: Option<Vec<u8>>)
    ensures
        r matches Some(d) ==> d@ == sha512_of(data@) && d@.len() == 64,
{
    match openssl::hash::hash(openssl::hash::MessageDigest::sha512(), data) {
        Ok(digest) => Some(digest.to_vec()),
        Err(_) => None,
    }
}

/// Relies on openssl's `EcdsaSig::sign` and on `BigNumRef::to_vec`, which
/// gives each signature component in minimal big-endian form. A fresh
/// signature depends on a random nonce, so nothing is promised of the
/// components; `None` only when openssl rejects the signing request.
#[verifier::external_body]
fn ecdsa_sign_raw(digest: &[u8], key: &SigningKey) -> (r: Option<(Vec<u8>, Vec<u8>)>) {
    match openssl::ecdsa::EcdsaSig::sign(digest, &key.key) {
        Ok(sig) => Some((sig.r().to_vec(), sig.s().to_vec())),
        Err(_) => None,
    }
}

/// Sign `payload` with ES512 and return the base64url-encoded signature.
///
/// A key on any curve but P-521 is rejected before anything is hashed.
/// The signature bytes depend on a random nonce drawn by the primitive, so
/// the contract pins their shape: a well-formed unpadded base64url
/// encoding of a 132-byte fixed-width packing.
pub fn sign_es512(payload: &[u8], key: &SigningKey) -> (out: Result<Vec<u8>, JwsError>)
    ensures
        out == Err::<Vec<u8>, JwsError>(JwsError::UnsupportedCurve) <==> !key.spec_is_p521(),
        out matches Ok(sig) ==> exists|raw: Seq<u8>|
            raw.len() == 132 && sig@ == #[trigger] b64_encode(raw),
        out matches Err(e) ==> e == JwsError::UnsupportedCurve || e == JwsError::InvalidKey
            || e == JwsError::MalformedEncoding,
{
    if !key.is_p521() {
        return Err(JwsError::UnsupportedCurve);
    }
    let digest = match sha512(payload) {
        Some(d) => d,
        None => {
            return Err(JwsError::InvalidKey);
        },
    };
    let components = match ecdsa_sign_raw(digest.as_slice(), key) {
        Some(c) => c,
        None => {
            return Err(JwsError::InvalidKey);
        },
    };
    let raw = match encode_ec_signature(components.0.as_slice(), components.1.as_slice()) {
        Ok(v) => v,
        Err(e) => {
            return Err(e);
        },
    };
    let sig = base64_encode(raw.as_slice());
    proof {
        assert(raw@.len() == 132 && sig@ == b64_encode(raw@));
    }
    Ok(sig)
}

/// The signing input of a compact JWS: base64url of the header bytes, a
/// dot, base64url of the payload bytes.
pub open spec fn signing_input_of(header: Seq<u8>, payload: Seq<u8>) -> Seq<u8> {
    b64_encode(header) + seq![DOT] + b64_encode(payload)
}

/// Build a compact ES512 JWS from a serialized JSON header and a payload
/// (RFC 7515, section A.4): sign the signing input, then append a dot and
/// the encoded signature.
pub fn get_jws(header_json: &[u8], payload: &[u8], key: &SigningKey) -> (out: Result<
    Vec<u8>,
    JwsError,
>)
    ensures
        out == Err::<Vec<u8>, JwsError>(JwsError::UnsupportedCurve) <==> !key.spec_is_p521(),
        out matches Ok(jws) ==> exists|raw: Seq<u8>|
            raw.len() == 132 && jws@ == signing_input_of(header_json@, payload@) + seq![DOT]
                + #[trigger] b64_encode(raw),
        out matches Err(e) ==> e == JwsError::UnsupportedCurve || e == JwsError::InvalidKey
            || e == JwsError::MalformedEncoding,
{
    let mut to_be_signed = base64_encode(header_json);
    to_be_signed.push(DOT);
    let mut payload_b64 = base64_encode(payload);
    to_be_signed.append(&mut payload_b64);
    proof {
        assert(to_be_signed@ =~= signing_input_of(header_json@, payload@));
    }
    let sig = match sign_es512(to_be_signed.as_slice(), key) {
        Ok(s) => s,
        Err(e) => {
            return Err(e);
        },
    };
    let mut jws = to_be_signed;
    jws.push(DOT);
    let mut sig_part = sig;
    jws.append(&mut sig_part);
    proof {
        let raw = choose|raw: Seq<u8>| raw.len() == 132 && sig@ == #[trigger] b64_encode(raw);
        assert(jws@ =~= signing_input_of(header_json@, payload@) + seq![DOT] + b64_encode(raw));
    }
    Ok(jws)
}

} // verus!
