use jws_es512::b64::base64_decode;
use jws_es512::errors::JwsError;
use jws_es512::sig_codec::split_ec_signature;
use jws_es512::signer::{es512_header_json, get_jws, sign_es512, SigningKey};
use openssl::bn::BigNum;
use openssl::ec::{EcGroup, EcKey};
use openssl::ecdsa::EcdsaSig;
use openssl::hash::{hash, MessageDigest};
use openssl::nid::Nid;

fn p521_key() -> EcKey<openssl::pkey::Private> {
    let group = EcGroup::from_curve_name(Nid::SECP521R1).unwrap();
    EcKey::generate(&group).unwrap()
}

#[test]
fn header_is_serialized_exactly() {
    let header = es512_header_json(b"3fa85f64-5717-4562-b3fc-2c963f66afa6");
    assert_eq!(
        header,
        b"{\"alg\":\"ES512\",\"kid\":\"3fa85f64-5717-4562-b3fc-2c963f66afa6\"}".to_vec()
    );
}

#[test]
fn rejects_non_p521_curve() {
    // curve enforcement: a P-256 key is turned away with UnsupportedCurve
    let group = EcGroup::from_curve_name(Nid::X9_62_PRIME256V1).unwrap();
    let p256 = EcKey::generate(&group).unwrap();
    let key = SigningKey::from_ec_key(p256);
    assert!(!key.is_p521());
    assert_eq!(
        sign_es512(b"payload", &key),
        Err(JwsError::UnsupportedCurve)
    );
    assert_eq!(
        get_jws(b"{}", b"payload", &key),
        Err(JwsError::UnsupportedCurve)
    );
}

#[test]
fn accepts_p521_curve() {
    let key = SigningKey::from_ec_key(p521_key());
    assert!(key.is_p521());
    assert!(sign_es512(b"payload", &key).is_ok());
}

#[test]
fn signed_jws_round_trips_with_matching_public_key() {
    // the signer half of the round trip: the JWS's segments decode back to
    // the header and payload, and the fixed-width signature checks out
    // against the matching public key under SHA-512 ECDSA
    let ec_key = p521_key();
    let pem = ec_key.private_key_to_pem().unwrap();
    let verify_key = EcKey::private_key_from_pem(&pem).unwrap();
    let key = SigningKey::from_ec_key(ec_key);

    let header = es512_header_json(b"3fa85f64-5717-4562-b3fc-2c963f66afa6");
    let payload = b"{\"amount\":1,\"currency\":\"GBP\"}";
    let jws = get_jws(&header, payload, &key).unwrap();

    let parts: Vec<&[u8]> = jws.split(|&b| b == b'.').collect();
    assert_eq!(parts.len(), 3);
    assert_eq!(base64_decode(parts[0]).unwrap(), header);
    assert_eq!(base64_decode(parts[1]).unwrap(), payload.to_vec());

    let raw = base64_decode(parts[2]).unwrap();
    assert_eq!(raw.len(), 132);
    let (r_half, s_half) = split_ec_signature(&raw).unwrap();
    let signature = EcdsaSig::from_private_components(
        BigNum::from_slice(&r_half).unwrap(),
        BigNum::from_slice(&s_half).unwrap(),
    )
    .unwrap();

    let signing_input_len = jws.len() - parts[2].len() - 1;
    let digest = hash(MessageDigest::sha512(), &jws[..signing_input_len]).unwrap();
    assert!(signature.verify(&digest, &verify_key).unwrap());

    // the same signature must not check against a different key
    let other = p521_key();
    assert!(!signature.verify(&digest, &other).unwrap());
}

#[test]
fn signature_is_always_132_bytes_before_encoding() {
    let key = SigningKey::from_ec_key(p521_key());
    for i in 0..5 {
        let payload = format!("payload-{}", i);
        let sig = sign_es512(payload.as_bytes(), &key).unwrap();
        let raw = base64_decode(&sig).unwrap();
        assert_eq!(raw.len(), 132);
    }
}
