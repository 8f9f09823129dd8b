use jws_es512::b64::{base64_decode, base64_encode};
use jws_es512::errors::{Claim, JwsError};
use jws_es512::verify_webhook::{
    complete_verification, detach_jws, is_allowed_jwks_url, prepare_verification, split_detached,
    KeyEntry, KeySet, VerifyRequest,
};
use picky::jose::jws::{Jws, JwsAlg, JwsHeader};
use picky::key::{PrivateKey, PublicKey};

const SANDBOX_URL: &str = "https://webhooks.truelayer-sandbox.com/.well-known/jwks";
const PRODUCTION_URL: &str = "https://webhooks.truelayer.com/.well-known/jwks";

/// Example of a webhook produced in the sandbox environment.
const EXAMPLE_BODY: &str = "{\"event_type\":\"withdrawal_settled\",\"event_id\":\"de5940e7-d695-4dc4-b2ed-4cd2b8fa720d\",\"event_schema_version\":1,\"event_body\":{\"client_id\":\"sandbox-stefanpdeure2e-f7f4e2\",\"transaction_id\":\"d1c60b2c-c4a1-4888-9126-cc07e24528e5\",\"settled_at\":\"2021-08-03T13:13:53.910Z\"}}";
/// Signature for `EXAMPLE_BODY`.
const EXAMPLE_SIGNATURE: &str = "eyJhbGciOiJSUzUxMiIsImtpZCI6ImM5MDM0YzBmLWJkMDYtNGRkMS05OGZlLWY2N2E1YTFhMDYwMSIsImprdSI6Imh0dHBzOi8vd2ViaG9va3MudHJ1ZWxheWVyLXNhbmRib3guY29tLy53ZWxsLWtub3duL2p3a3MifQ..Z1vvjNAk83eRE-KWkH9omhd6QkdeBog0YaqfhVOYKU9r8eWVYd2gsej_fcfV1jEKKL-iOt7a9qF5Htw1CJ08P7AqlWy4_-QjtNEkJ7uFEsHRNTAunROfha_Xrc7e0fNrdkyEq3WHJT5KmBXcz2xJILAleclKptAMPX_QEKoIdi6OHRM1yRKE1_0cbqlCynQdDMYIBn1PLSXN4OOUPUhQHEvc6UIRUMH0MRrW1XUesE0IWXmC-zB4Y6BD6zRu7Q0gZPlmEphS3GbzB-LQxHt45dvZXaSS45RPUBMT5PsqwKvWr0bHgF7SvAiDHusO14U2Q-9_Vgli-oqQdrG5VJgiUA";

fn detached_with_header(header_json: &[u8]) -> Vec<u8> {
    let mut t = base64_encode(header_json);
    t.push(b'.');
    t.push(b'.');
    let sig = base64_encode(&[7u8; 132]);
    t.extend_from_slice(&sig);
    t
}

/// An RS512 JWS over `body` with the given claims, and the matching
/// public key.
fn rs512_jws(body: &[u8], kid: &str, jku: &str) -> (String, PublicKey) {
    let rsa = openssl::rsa::Rsa::generate(2048).unwrap();
    let pem = String::from_utf8(rsa.private_key_to_pem().unwrap()).unwrap();
    let private = PrivateKey::from_pem_str(&pem).unwrap();
    let mut header = JwsHeader::new(JwsAlg::RS512);
    header.kid = Some(kid.to_string());
    header.jku = Some(jku.to_string());
    let jws = Jws {
        header,
        payload: body.to_vec(),
    };
    let token = jws.encode(&private).unwrap();
    (token, private.to_public_key())
}

fn verify_chain(body: &[u8], detached: &[u8], keys: &KeySet) -> Result<(), JwsError> {
    let request: VerifyRequest = prepare_verification(detached)?;
    complete_verification(body, &request, keys)
}

#[test]
fn allow_list_has_exactly_the_two_endpoints() {
    assert!(is_allowed_jwks_url(PRODUCTION_URL.as_bytes()));
    assert!(is_allowed_jwks_url(SANDBOX_URL.as_bytes()));
    assert!(!is_allowed_jwks_url(b"https://evil.example.com/jwks"));
    assert!(!is_allowed_jwks_url(
        b"https://webhooks.truelayer.com/.well-known/jwks2"
    ));
    assert!(!is_allowed_jwks_url(b""));
}

#[test]
fn split_detached_requires_exact_shape() {
    let ok = split_detached(b"aGVhZA..c2ln").unwrap();
    assert_eq!(ok.0, b"aGVhZA".to_vec());
    assert_eq!(ok.1, b"c2ln".to_vec());
    assert_eq!(split_detached(b"nodots"), Err(JwsError::MalformedJws));
    assert_eq!(split_detached(b"one.dot"), Err(JwsError::MalformedJws));
    assert_eq!(split_detached(b"a.b.c"), Err(JwsError::MalformedJws));
    assert_eq!(split_detached(b"a..b..c"), Err(JwsError::MalformedJws));
    assert_eq!(split_detached(b"a..b.c"), Err(JwsError::MalformedJws));
}

#[test]
fn detach_drops_the_payload_segment() {
    assert_eq!(detach_jws(b"h.p.s").unwrap(), b"h..s".to_vec());
    assert_eq!(detach_jws(b"h.p"), Err(JwsError::MalformedJws));
    assert_eq!(detach_jws(b"h.p.s.t"), Err(JwsError::MalformedJws));
}

#[test]
fn untrusted_url_is_rejected() {
    // the header is attacker-controlled: a jku outside the allow-list must
    // be turned away before any resolution is attempted
    let header = b"{\"alg\":\"RS512\",\"jku\":\"https://evil.example.com/jwks\",\"kid\":\"x\"}";
    assert_eq!(
        prepare_verification(&detached_with_header(header)),
        Err(JwsError::UntrustedKeySetUrl)
    );
}

#[test]
fn missing_claims_are_rejected() {
    let no_jku = b"{\"alg\":\"RS512\",\"kid\":\"x\"}";
    assert_eq!(
        prepare_verification(&detached_with_header(no_jku)),
        Err(JwsError::MissingClaim(Claim::Jku))
    );
    let no_kid =
        b"{\"alg\":\"RS512\",\"jku\":\"https://webhooks.truelayer-sandbox.com/.well-known/jwks\"}";
    assert_eq!(
        prepare_verification(&detached_with_header(no_kid)),
        Err(JwsError::MissingClaim(Claim::Kid))
    );
    let neither = b"{\"alg\":\"RS512\"}";
    assert_eq!(
        prepare_verification(&detached_with_header(neither)),
        Err(JwsError::MissingClaim(Claim::Jku))
    );
}

#[test]
fn malformed_headers_are_rejected() {
    // a header segment that is not base64url
    assert_eq!(
        prepare_verification(b"not=b64..c2ln"),
        Err(JwsError::MalformedEncoding)
    );
    // a header that is not a JSON object
    assert_eq!(
        prepare_verification(&detached_with_header(b"[1,2,3]")),
        Err(JwsError::MalformedJws)
    );
    assert_eq!(
        prepare_verification(&detached_with_header(b"not json")),
        Err(JwsError::MalformedJws)
    );
}

#[test]
fn example_webhook_claims_are_extracted() {
    // the recorded sandbox webhook: its detached signature parses, names
    // the sandbox key set and the recorded key identifier (checking its
    // signature needs the key set behind that URL)
    let request = prepare_verification(EXAMPLE_SIGNATURE.as_bytes()).unwrap();
    assert_eq!(request.jku, SANDBOX_URL.as_bytes().to_vec());
    assert_eq!(
        request.kid,
        b"c9034c0f-bd06-4dd1-98fe-f67a5a1a0601".to_vec()
    );
    let header_json = base64_decode(&request.header_segment).unwrap();
    assert_eq!(
        header_json,
        b"{\"alg\":\"RS512\",\"kid\":\"c9034c0f-bd06-4dd1-98fe-f67a5a1a0601\",\"jku\":\"https://webhooks.truelayer-sandbox.com/.well-known/jwks\"}".to_vec()
    );
}

#[test]
fn webhook_round_trip_verifies() {
    let body = EXAMPLE_BODY.as_bytes();
    let (token, public) = rs512_jws(body, "test-key-1", SANDBOX_URL);
    let detached = detach_jws(token.as_bytes()).unwrap();
    let keys = KeySet {
        keys: vec![KeyEntry {
            kid: Some(b"test-key-1".to_vec()),
            key: public,
        }],
    };
    assert_eq!(verify_chain(body, &detached, &keys), Ok(()));
    // a different body under the same signature must fail
    assert_eq!(
        verify_chain(b"{\"foo\":123}", &detached, &keys),
        Err(JwsError::SignatureInvalid)
    );
}

#[test]
fn unknown_kid_is_key_not_found() {
    let body = b"payload";
    let (token, public) = rs512_jws(body, "known-kid", SANDBOX_URL);
    let detached = detach_jws(token.as_bytes()).unwrap();
    let keys = KeySet {
        keys: vec![
            KeyEntry {
                kid: None,
                key: public.clone(),
            },
            KeyEntry {
                kid: Some(b"other-kid".to_vec()),
                key: public,
            },
        ],
    };
    assert_eq!(verify_chain(body, &detached, &keys), Err(JwsError::KeyNotFound));
}

#[test]
fn duplicate_kid_first_match_wins() {
    let body = b"payload";
    let (token, public) = rs512_jws(body, "dup-kid", SANDBOX_URL);
    let (_, wrong_public) = rs512_jws(body, "dup-kid", SANDBOX_URL);
    let detached = detach_jws(token.as_bytes()).unwrap();
    // correct key first: verification succeeds
    let good_first = KeySet {
        keys: vec![
            KeyEntry {
                kid: Some(b"dup-kid".to_vec()),
                key: public.clone(),
            },
            KeyEntry {
                kid: Some(b"dup-kid".to_vec()),
                key: wrong_public.clone(),
            },
        ],
    };
    assert_eq!(verify_chain(body, &detached, &good_first), Ok(()));
    // wrong key first: the first match wins, so verification fails
    let wrong_first = KeySet {
        keys: vec![
            KeyEntry {
                kid: Some(b"dup-kid".to_vec()),
                key: wrong_public,
            },
            KeyEntry {
                kid: Some(b"dup-kid".to_vec()),
                key: public,
            },
        ],
    };
    assert_eq!(
        verify_chain(body, &detached, &wrong_first),
        Err(JwsError::SignatureInvalid)
    );
}

#[test]
fn any_single_bit_flip_fails_verification() {
    let body = b"{\"event\":\"test\",\"id\":42}".to_vec();
    let (token, public) = rs512_jws(&body, "bit-key", SANDBOX_URL);
    let detached = detach_jws(token.as_bytes()).unwrap();
    let keys = KeySet {
        keys: vec![KeyEntry {
            kid: Some(b"bit-key".to_vec()),
            key: public,
        }],
    };
    assert_eq!(verify_chain(&body, &detached, &keys), Ok(()));
    // flipping any single bit of the payload must fail verification
    for position in 0..body.len() {
        for bit in 0..8 {
            let mut tampered = body.clone();
            tampered[position] ^= 1 << bit;
            assert!(verify_chain(&tampered, &detached, &keys).is_err());
        }
    }
    // flipping a bit anywhere in the detached header or signature segment
    // must fail too (sampled across the serialized form)
    for position in (0..detached.len()).step_by(13) {
        let mut tampered = detached.clone();
        tampered[position] ^= 1;
        assert!(verify_chain(&body, &tampered, &keys).is_err());
    }
}

#[test]
fn error_messages_name_the_failure() {
    assert_eq!(
        JwsError::MissingClaim(Claim::Jku).message(),
        "missing header claim: jku"
    );
    assert_eq!(
        JwsError::UnsupportedCurve.message(),
        "the signing key is not a P-521 key"
    );
}
