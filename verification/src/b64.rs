//! The base64url codec without padding (RFC 7515, section 2): the encoding
//! of every JWS segment. Both directions are specified to the bit against
//! `b64_encode` / `b64_decode`, and decoding accepts a byte string if and
//! only if it is well-formed: alphabet bytes only, no padding, a residue of
//! length 2 or 3 (never 1), and zero residual bits in the final symbol.

use vstd::prelude::*;

use crate::errors::JwsError;

verus! {

/// The byte of the URL-safe alphabet that stands for the 6-bit value `v`.
pub open spec fn b64_byte_of(v: u8) -> u8
    recommends
        v < 64,
{
    if v < 26 {
        (v + 0x41) as u8  // 'A'..='Z'
    } else if v < 52 {
        (v + 0x47) as u8  // 'a'..='z'
    } else if v < 62 {
        (v - 4) as u8  // '0'..='9'
    } else if v == 62 {
        0x2d  // '-'
    } else {
        0x5f  // '_'
    }
}

/// The 6-bit value of an alphabet byte, or 64 for a byte outside the
/// URL-safe alphabet.
pub open spec fn b64_val_of(b: u8) -> u8 {
    if 0x41 <= b && b <= 0x5a {
        (b - 0x41) as u8
    } else if 0x61 <= b && b <= 0x7a {
        (b - 0x47) as u8
    } else if 0x30 <= b && b <= 0x39 {
        (b + 4) as u8
    } else if b == 0x2d {
        62u8
    } else if b == 0x5f {
        63u8
    } else {
        64u8
    }
}

/// Whether `b` belongs to the URL-safe alphabet.
pub open spec fn is_b64_byte(b: u8) -> bool {
    b64_val_of(b) < 64
}

/// The unpadded base64url encoding of a byte string: full 3-byte groups
/// become 4 symbols; a residue of 1 or 2 bytes becomes 2 or 3 symbols whose
/// unused low bits are zero.
pub open spec fn b64_encode(s: Seq<u8>) -> Seq<u8>
    decreases s.len(),
{
    if s.len() == 0 {
        Seq::empty()
    } else if s.len() == 1 {
        seq![b64_byte_of(s[0] >> 2), b64_byte_of((s[0] & 3) << 4)]
    } else if s.len() == 2 {
        seq![
            b64_byte_of(s[0] >> 2),
            b64_byte_of(((s[0] & 3) << 4) | (s[1] >> 4)),
            b64_byte_of((s[1] & 15) << 2),
        ]
    } else {
        seq![
            b64_byte_of(s[0] >> 2),
            b64_byte_of(((s[0] & 3) << 4) | (s[1] >> 4)),
            b64_byte_of(((s[1] & 15) << 2) | (s[2] >> 6)),
            b64_byte_of(s[2] & 63),
        ] + b64_encode(s.skip(3))
    }
}

/// Whether `t` is a well-formed unpadded base64url encoding: every byte in
/// the alphabet, no residue of length 1, and zero residual bits in the last
/// symbol of a partial group.
pub open spec fn b64_valid(t: Seq<u8>) -> bool
    decreases t.len(),
{
    if t.len() == 0 {
        true
    } else if t.len() == 1 {
        false
    } else if t.len() == 2 {
        is_b64_byte(t[0]) && is_b64_byte(t[1]) && b64_val_of(t[1]) & 15 == 0
    } else if t.len() == 3 {
        is_b64_byte(t[0]) && is_b64_byte(t[1]) && is_b64_byte(t[2]) && b64_val_of(t[2]) & 3 == 0
    } else {
        is_b64_byte(t[0]) && is_b64_byte(t[1]) && is_b64_byte(t[2]) && is_b64_byte(t[3])
            && b64_valid(t.skip(4))
    }
}

/// The byte string that a well-formed unpadded base64url encoding stands
/// for. Meaningful under `b64_valid(t)`.
pub open spec fn b64_decode(t: Seq<u8>) -> Seq<u8>
    recommends
        b64_valid(t),
    decreases t.len(),
{
    if t.len() < 2 {
        Seq::empty()
    } else if t.len() == 2 {
        seq![(b64_val_of(t[0]) << 2) | (b64_val_of(t[1]) >> 4)]
    } else if t.len() == 3 {
        seq![
            (b64_val_of(t[0]) << 2) | (b64_val_of(t[1]) >> 4),
            ((b64_val_of(t[1]) & 15) << 4) | (b64_val_of(t[2]) >> 2),
        ]
    } else {
        seq![
            (b64_val_of(t[0]) << 2) | (b64_val_of(t[1]) >> 4),
            ((b64_val_of(t[1]) & 15) << 4) | (b64_val_of(t[2]) >> 2),
            ((b64_val_of(t[2]) & 3) << 6) | b64_val_of(t[3]),
        ] + b64_decode(t.skip(4))
    }
}

/// The alphabet byte for the 6-bit value `v`.
fn b64_byte(v: u8) -> (r: u8)
    requires
        v < 64,
    ensures
        r == b64_byte_of(v),
{
    if v < 26 {
        v + 0x41
    } else if v < 52 {
        v + 0x47
    } else if v < 62 {
        v - 4
    } else if v == 62 {
        0x2d
    } else {
        0x5f
    }
}

/// The 6-bit value of `b`, or 64 when `b` is outside the alphabet.
fn b64_val(b: u8) -> (r: u8)
    ensures
        r == b64_val_of(b),
{
    if 0x41 <= b && b <= 0x5a {
        b - 0x41
    } else if 0x61 <= b && b <= 0x7a {
        b - 0x47
    } else if 0x30 <= b && b <= 0x39 {
        b + 4
    } else if b == 0x2d {
        62
    } else if b == 0x5f {
        63
    } else {
        64
    }
}

/// The four 6-bit values cut out of a 3-byte group are below 64.
proof fn lemma_group_bounds(b0: u8, b1: u8, b2: u8)
    ensures
        b0 >> 2 < 64,
        ((b0 & 3) << 4) | (b1 >> 4) < 64,
        ((b1 & 15) << 2) | (b2 >> 6) < 64,
        b2 & 63 < 64,
        (b1 & 15) << 2 < 64,
        (b0 & 3) << 4 < 64,
{
    assert(b0 >> 2 < 64 && ((b0 & 3) << 4) | (b1 >> 4) < 64 && ((b1 & 15) << 2) | (b2 >> 6) < 64
        && b2 & 63 < 64 && (b1 & 15) << 2 < 64 && (b0 & 3) << 4 < 64) by (bit_vector);
}

/// An alphabet byte decodes back to the 6-bit value it stands for.
proof fn lemma_b64_byte_val(v: u8)
    requires
        v < 64,
    ensures
        b64_val_of(b64_byte_of(v)) == v,
{
}

/// Reassembling the 6-bit values cut out of a group gives the group back,
/// and the unused low bits of a partial group's last symbol are zero.
proof fn lemma_group_reconstruct(b0: u8, b1: u8, b2: u8)
    ensures
        ((b0 >> 2) << 2) | ((((b0 & 3) << 4) | (b1 >> 4)) >> 4) == b0,
        (((((b0 & 3) << 4) | (b1 >> 4)) & 15) << 4) | ((((b1 & 15) << 2) | (b2 >> 6)) >> 2) == b1,
        (((((b1 & 15) << 2) | (b2 >> 6)) & 3) << 6) | (b2 & 63) == b2,
        ((b0 >> 2) << 2) | (((b0 & 3) << 4) >> 4) == b0,
        (((((b0 & 3) << 4) | (b1 >> 4)) & 15) << 4) | (((b1 & 15) << 2) >> 2) == b1,
        ((b0 & 3) << 4) & 15 == 0,
        ((b1 & 15) << 2) & 3 == 0,
{
    assert(((b0 >> 2) << 2) | ((((b0 & 3) << 4) | (b1 >> 4)) >> 4) == b0
        && (((((b0 & 3) << 4) | (b1 >> 4)) & 15) << 4) | ((((b1 & 15) << 2) | (b2 >> 6)) >> 2)
        == b1 && (((((b1 & 15) << 2) | (b2 >> 6)) & 3) << 6) | (b2 & 63) == b2 && ((b0 >> 2) << 2)
        | (((b0 & 3) << 4) >> 4) == b0 && (((((b0 & 3) << 4) | (b1 >> 4)) & 15) << 4) | (((b1 & 15)
        << 2) >> 2) == b1 && ((b0 & 3) << 4) & 15 == 0 && ((b1 & 15) << 2) & 3 == 0)
        by (bit_vector);
}

/// Decoding inverts encoding: the encoding of any byte string is
/// well-formed unpadded base64url and decodes back to that byte string.
pub proof fn lemma_b64_roundtrip(s: Seq<u8>)
    ensures
        b64_valid(b64_encode(s)),
        b64_decode(b64_encode(s)) == s,
    decreases s.len(),
{
    if s.len() == 0 {
        assert(b64_decode(b64_encode(s)) =~= s);
    } else if s.len() == 1 {
        let b0 = s[0];
        lemma_group_bounds(b0, 0, 0);
        lemma_b64_byte_val(b0 >> 2);
        lemma_b64_byte_val((b0 & 3) << 4);
        lemma_group_reconstruct(b0, 0, 0);
        assert(b64_decode(b64_encode(s)) =~= s);
    } else if s.len() == 2 {
        let b0 = s[0];
        let b1 = s[1];
        lemma_group_bounds(b0, b1, 0);
        lemma_b64_byte_val(b0 >> 2);
        lemma_b64_byte_val(((b0 & 3) << 4) | (b1 >> 4));
        lemma_b64_byte_val((b1 & 15) << 2);
        lemma_group_reconstruct(b0, b1, 0);
        assert(b64_decode(b64_encode(s)) =~= s);
    } else {
        let b0 = s[0];
        let b1 = s[1];
        let b2 = s[2];
        let t = b64_encode(s);
        lemma_group_bounds(b0, b1, b2);
        lemma_b64_byte_val(b0 >> 2);
        lemma_b64_byte_val(((b0 & 3) << 4) | (b1 >> 4));
        lemma_b64_byte_val(((b1 & 15) << 2) | (b2 >> 6));
        lemma_b64_byte_val(b2 & 63);
        lemma_group_reconstruct(b0, b1, b2);
        lemma_b64_roundtrip(s.skip(3));
        assert(t.skip(4) =~= b64_encode(s.skip(3)));
        assert(b64_valid(t));
        assert(b64_decode(t) =~= s);
    }
}

/// An alphabet byte is the encoding of its own 6-bit value.
proof fn lemma_b64_val_byte(c: u8)
    requires
        is_b64_byte(c),
    ensures
        b64_byte_of(b64_val_of(c)) == c,
{
}

/// Encoding inverts decoding on well-formed input: every well-formed
/// unpadded base64url byte string is the encoding of what it decodes to.
/// Together with `lemma_b64_roundtrip` this makes encodings canonical:
/// distinct well-formed encodings stand for distinct byte strings.
pub proof fn lemma_b64_canonical(t: Seq<u8>)
    requires
        b64_valid(t),
    ensures
        b64_encode(b64_decode(t)) == t,
    decreases t.len(),
{
    if t.len() == 0 {
        assert(b64_encode(b64_decode(t)) =~= t);
    } else if t.len() == 2 {
        let v0 = b64_val_of(t[0]);
        let v1 = b64_val_of(t[1]);
        lemma_b64_val_byte(t[0]);
        lemma_b64_val_byte(t[1]);
        assert(((v0 << 2) | (v1 >> 4)) >> 2 == v0 && ((((v0 << 2) | (v1 >> 4)) & 3) << 4) == v1)
            by (bit_vector)
            requires
                v0 < 64,
                v1 < 64,
                v1 & 15 == 0,
        ;
        assert(b64_encode(b64_decode(t)) =~= t);
    } else if t.len() == 3 {
        let v0 = b64_val_of(t[0]);
        let v1 = b64_val_of(t[1]);
        let v2 = b64_val_of(t[2]);
        lemma_b64_val_byte(t[0]);
        lemma_b64_val_byte(t[1]);
        lemma_b64_val_byte(t[2]);
        assert(((v0 << 2) | (v1 >> 4)) >> 2 == v0 && ((((v0 << 2) | (v1 >> 4)) & 3) << 4) | ((((v1
            & 15) << 4) | (v2 >> 2)) >> 4) == v1 && (((((v1 & 15) << 4) | (v2 >> 2)) & 15) << 2)
            == v2) by (bit_vector)
            requires
                v0 < 64,
                v1 < 64,
                v2 < 64,
                v2 & 3 == 0,
        ;
        assert(b64_encode(b64_decode(t)) =~= t);
    } else {
        let v0 = b64_val_of(t[0]);
        let v1 = b64_val_of(t[1]);
        let v2 = b64_val_of(t[2]);
        let v3 = b64_val_of(t[3]);
        lemma_b64_val_byte(t[0]);
        lemma_b64_val_byte(t[1]);
        lemma_b64_val_byte(t[2]);
        lemma_b64_val_byte(t[3]);
        assert(((v0 << 2) | (v1 >> 4)) >> 2 == v0 && ((((v0 << 2) | (v1 >> 4)) & 3) << 4) | ((((v1
            & 15) << 4) | (v2 >> 2)) >> 4) == v1 && (((((v1 & 15) << 4) | (v2 >> 2)) & 15) << 2) | (
        (((v2 & 3) << 6) | v3) >> 6) == v2 && (((v2 & 3) << 6) | v3) & 63 == v3) by (bit_vector)
            requires
                v0 < 64,
                v1 < 64,
                v2 < 64,
                v3 < 64,
        ;
        lemma_b64_canonical(t.skip(4));
        assert(b64_decode(t).skip(3) =~= b64_decode(t.skip(4)));
        assert(b64_encode(b64_decode(t)) =~= t);
    }
}

/// Encoding is injective: two different byte strings never share an
/// encoding, so any change to the raw bytes shows in the encoded segment.
pub proof fn lemma_b64_encode_injective(s1: Seq<u8>, s2: Seq<u8>)
    requires
        b64_encode(s1) == b64_encode(s2),
    ensures
        s1 == s2,
{
    lemma_b64_roundtrip(s1);
    lemma_b64_roundtrip(s2);
}

/// Every byte of an encoding belongs to the URL-safe alphabet; in
/// particular no encoding contains the `.` separator of compact JWS forms.
pub proof fn lemma_b64_encode_alphabet(s: Seq<u8>)
    ensures
        forall|j: int|
            0 <= j < b64_encode(s).len() ==> is_b64_byte(#[trigger] b64_encode(s)[j]),
    decreases s.len(),
{
    if s.len() == 0 {
    } else if s.len() == 1 {
        let b0 = s[0];
        lemma_group_bounds(b0, 0, 0);
        lemma_b64_byte_val(b0 >> 2);
        lemma_b64_byte_val((b0 & 3) << 4);
    } else if s.len() == 2 {
        let b0 = s[0];
        let b1 = s[1];
        lemma_group_bounds(b0, b1, 0);
        lemma_b64_byte_val(b0 >> 2);
        lemma_b64_byte_val(((b0 & 3) << 4) | (b1 >> 4));
        lemma_b64_byte_val((b1 & 15) << 2);
    } else {
        let b0 = s[0];
        let b1 = s[1];
        let b2 = s[2];
        lemma_group_bounds(b0, b1, b2);
        lemma_b64_byte_val(b0 >> 2);
        lemma_b64_byte_val(((b0 & 3) << 4) | (b1 >> 4));
        lemma_b64_byte_val(((b1 & 15) << 2) | (b2 >> 6));
        lemma_b64_byte_val(b2 & 63);
        lemma_b64_encode_alphabet(s.skip(3));
        assert forall|j: int| 0 <= j < b64_encode(s).len() implies is_b64_byte(
            #[trigger] b64_encode(s)[j],
        ) by {
            if j >= 4 {
                assert(b64_encode(s)[j] == b64_encode(s.skip(3))[j - 4]);
            }
        }
    }
}

/// Encode a byte string as unpadded base64url.
pub fn base64_encode(s: &[u8]) -> (r: Vec<u8>)
    ensures
        r@ == b64_encode(s@),
{
    let n = s.len();
    let mut out: Vec<u8> = Vec::new();
    let mut i: usize = 0;
    proof {
        assert(s@.skip(0) =~= s@);
    }
    while n - i >= 3
        invariant
            i <= n,
            n == s@.len(),
            out@ + b64_encode(s@.skip(i as int)) == b64_encode(s@),
        decreases n - i,
    {
        let b0 = s[i];
        let b1 = s[i + 1];
        let b2 = s[i + 2];
        proof {
            lemma_group_bounds(b0, b1, b2);
        }
        out.push(b64_byte(b0 >> 2));
        out.push(b64_byte(((b0 & 3) << 4) | (b1 >> 4)));
        out.push(b64_byte(((b1 & 15) << 2) | (b2 >> 6)));
        out.push(b64_byte(b2 & 63));
        proof {
            assert(s@.skip(i as int).skip(3) =~= s@.skip(i as int + 3));
            assert(out@ + b64_encode(s@.skip(i as int + 3)) =~= b64_encode(s@));
        }
        i += 3;
    }
    if n - i == 1 {
        let b0 = s[i];
        proof {
            lemma_group_bounds(b0, 0, 0);
        }
        out.push(b64_byte(b0 >> 2));
        out.push(b64_byte((b0 & 3) << 4));
        proof {
            assert(out@ =~= b64_encode(s@));
        }
    } else if n - i == 2 {
        let b0 = s[i];
        let b1 = s[i + 1];
        proof {
            lemma_group_bounds(b0, b1, 0);
        }
        out.push(b64_byte(b0 >> 2));
        out.push(b64_byte(((b0 & 3) << 4) | (b1 >> 4)));
        out.push(b64_byte((b1 & 15) << 2));
        proof {
            assert(out@ =~= b64_encode(s@));
        }
    } else {
        proof {
            assert(s@.skip(i as int) =~= Seq::<u8>::empty());
            assert(out@ =~= b64_encode(s@));
        }
    }
    out
}

/// Decode an unpadded base64url byte string; reject anything else.
pub fn base64_decode(t: &[u8]) -> (res: Result<Vec<u8>, JwsError>)
    ensures
        res is Ok <==> b64_valid(t@),
        res matches Ok(v) ==> v@ == b64_decode(t@),
        res matches Err(e) ==> e == JwsError::MalformedEncoding,
{
    let n = t.len();
    let mut out: Vec<u8> = Vec::new();
    let mut i: usize = 0;
    proof {
        assert(t@.skip(0) =~= t@);
    }
    while n - i >= 4
        invariant
            i <= n,
            n == t@.len(),
            b64_valid(t@) <==> b64_valid(t@.skip(i as int)),
            b64_valid(t@.skip(i as int)) ==> out@ + b64_decode(t@.skip(i as int)) == b64_decode(
                t@,
            ),
        decreases n - i,
    {
        let v0 = b64_val(t[i]);
        let v1 = b64_val(t[i + 1]);
        let v2 = b64_val(t[i + 2]);
        let v3 = b64_val(t[i + 3]);
        if v0 == 64 || v1 == 64 || v2 == 64 || v3 == 64 {
            return Err(JwsError::MalformedEncoding);
        }
        out.push((v0 << 2) | (v1 >> 4));
        out.push(((v1 & 15) << 4) | (v2 >> 2));
        out.push(((v2 & 3) << 6) | v3);
        proof {
            assert(t@.skip(i as int).skip(4) =~= t@.skip(i as int + 4));
            if b64_valid(t@.skip(i as int + 4)) {
                assert(out@ + b64_decode(t@.skip(i as int + 4)) =~= b64_decode(t@));
            }
        }
        i += 4;
    }
    if i == n {
        proof {
            assert(t@.skip(i as int) =~= Seq::<u8>::empty());
            assert(out@ =~= b64_decode(t@));
        }
        Ok(out)
    } else if n - i == 1 {
        Err(JwsError::MalformedEncoding)
    } else if n - i == 2 {
        let v0 = b64_val(t[i]);
        let v1 = b64_val(t[i + 1]);
        if v0 == 64 || v1 == 64 || (v1 & 15) != 0 {
            return Err(JwsError::MalformedEncoding);
        }
        out.push((v0 << 2) | (v1 >> 4));
        proof {
            assert(out@ =~= b64_decode(t@));
        }
        Ok(out)
    } else {
        let v0 = b64_val(t[i]);
        let v1 = b64_val(t[i + 1]);
        let v2 = b64_val(t[i + 2]);
        if v0 == 64 || v1 == 64 || v2 == 64 || (v2 & 3) != 0 {
            return Err(JwsError::MalformedEncoding);
        }
        out.push((v0 << 2) | (v1 >> 4));
        out.push(((v1 & 15) << 4) | (v2 >> 2));
        proof {
            assert(out@ =~= b64_decode(t@));
        }
        Ok(out)
    }
}

} // verus!
