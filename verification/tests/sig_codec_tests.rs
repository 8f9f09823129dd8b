use jws_es512::errors::JwsError;
use jws_es512::sig_codec::{encode_ec_signature, split_ec_signature};
use openssl::ec::{EcGroup, EcKey};
use openssl::ecdsa::EcdsaSig;
use openssl::hash::{hash, MessageDigest};
use openssl::nid::Nid;

fn strip_zeros(v: &[u8]) -> Vec<u8> {
    let mut i = 0;
    while i < v.len() && v[i] == 0 {
        i += 1;
    }
    v[i..].to_vec()
}

#[test]
fn packs_and_pads_components() {
    let r = vec![1u8, 2, 3];
    let s = vec![0xffu8; 66];
    let raw = encode_ec_signature(&r, &s).unwrap();
    assert_eq!(raw.len(), 132);
    assert_eq!(&raw[..63], &[0u8; 63][..]);
    assert_eq!(&raw[63..66], &[1, 2, 3][..]);
    assert_eq!(&raw[66..], &[0xffu8; 66][..]);
}

#[test]
fn rejects_oversized_component() {
    let too_long = vec![1u8; 67];
    let fine = vec![1u8; 66];
    assert_eq!(
        encode_ec_signature(&too_long, &fine),
        Err(JwsError::MalformedEncoding)
    );
    assert_eq!(
        encode_ec_signature(&fine, &too_long),
        Err(JwsError::MalformedEncoding)
    );
}

#[test]
fn split_rejects_wrong_length() {
    assert_eq!(
        split_ec_signature(&[0u8; 131]),
        Err(JwsError::MalformedEncoding)
    );
    assert_eq!(
        split_ec_signature(&[0u8; 133]),
        Err(JwsError::MalformedEncoding)
    );
}

#[test]
fn fixed_width_over_many_signatures() {
    // the fixed-width invariant over 1000 freshly generated signatures:
    // the packed raw signature is always exactly 132 bytes, and each
    // 66-byte half re-encodes to the original big-endian component
    let group = EcGroup::from_curve_name(Nid::SECP521R1).unwrap();
    let key = EcKey::generate(&group).unwrap();
    for i in 0..1000 {
        let message = format!("payload-{}", i);
        let digest = hash(MessageDigest::sha512(), message.as_bytes()).unwrap();
        let signature = EcdsaSig::sign(&digest, &key).unwrap();
        let r = signature.r().to_vec();
        let s = signature.s().to_vec();
        let raw = encode_ec_signature(&r, &s).unwrap();
        assert_eq!(raw.len(), 132);
        let (r_half, s_half) = split_ec_signature(&raw).unwrap();
        assert_eq!(r_half.len(), 66);
        assert_eq!(s_half.len(), 66);
        assert_eq!(strip_zeros(&r_half), r);
        assert_eq!(strip_zeros(&s_half), s);
    }
}
