//! Fixed-width packing of an ECDSA signature for ES512: each of the two
//! big-endian components r and s is left-padded with zero bytes to exactly
//! 66 bytes (the P-521 field width) and the two blocks are concatenated to
//! a 132-byte raw signature. The inverse splits a 132-byte blob back into
//! its halves. A component longer than 66 bytes is a hard error: it is
//! never truncated.

use vstd::prelude::*;

use crate::errors::JwsError;

verus! {

/// The width in bytes of one packed component: 521 bits rounded up.
pub const COMPONENT_WIDTH: usize = 66;

/// The value of a big-endian byte string as an unbounded integer.
pub open spec fn be_val(s: Seq<u8>) -> nat
    decreases s.len(),
{
    if s.len() == 0 {
        0
    } else {
        (be_val(s.drop_last()) * 256 + s.last()) as nat
    }
}

/// `s` left-padded with zero bytes to 66 bytes.
pub open spec fn pad66(s: Seq<u8>) -> Seq<u8>
    recommends
        s.len() <= 66,
{
    Seq::new(66, |i: int| if i < 66 - s.len() { 0u8 } else { s[i - (66 - s.len())] })
}

/// `s` without its leading zero bytes.
pub open spec fn strip_zeros(s: Seq<u8>) -> Seq<u8>
    decreases s.len(),
{
    if s.len() == 0 {
        s
    } else if s[0] == 0 {
        strip_zeros(s.skip(1))
    } else {
        s
    }
}

/// Whether `s` is a minimal big-endian form: no leading zero byte.
pub open spec fn minimal_be(s: Seq<u8>) -> bool {
    s.len() == 0 || s[0] != 0
}

/// Pack the two big-endian components of an ECDSA signature into the
/// 132-byte raw form, padding each to 66 bytes. A component longer than 66
/// bytes is rejected, never truncated.
pub fn encode_ec_signature(rc: &[u8], sc: &[u8]) -> (out: Result<Vec<u8>, JwsError>)
    ensures
        out is Ok <==> rc@.len() <= 66 && sc@.len() <= 66,
        out matches Ok(v) ==> v@ == pad66(rc@) + pad66(sc@) && v@.len() == 132,
        out matches Err(e) ==> e == JwsError::MalformedEncoding,
{
    if rc.len() > COMPONENT_WIDTH || sc.len() > COMPONENT_WIDTH {
        return Err(JwsError::MalformedEncoding);
    }
    let mut v: Vec<u8> = Vec::new();
    push_padded(&mut v, rc);
    push_padded(&mut v, sc);
    proof {
        assert(v@ =~= pad66(rc@) + pad66(sc@));
    }
    Ok(v)
}

/// Append the 66-byte left-padded form of `c` to `v`.
fn push_padded(v: &mut Vec<u8>, c: &[u8])
    requires
        c@.len() <= 66,
    ensures
        final(v)@ == old(v)@ + pad66(c@),
{
    let pad = COMPONENT_WIDTH - c.len();
    let mut i: usize = 0;
    while i < pad
        invariant
            pad == 66 - c@.len(),
            i <= pad,
            v@ == old(v)@ + Seq::new(i as nat, |j: int| 0u8),
        decreases pad - i,
    {
        v.push(0);
        proof {
            assert(v@ =~= old(v)@ + Seq::new((i + 1) as nat, |j: int| 0u8));
        }
        i += 1;
    }
    let mut k: usize = 0;
    while k < c.len()
        invariant
            pad == 66 - c@.len(),
            k <= c@.len(),
            v@ == old(v)@ + Seq::new(pad as nat, |j: int| 0u8) + c@.take(k as int),
        decreases c@.len() - k,
    {
        v.push(c[k]);
        proof {
            assert(v@ =~= old(v)@ + Seq::new(pad as nat, |j: int| 0u8) + c@.take(k + 1));
        }
        k += 1;
    }
    proof {
        assert(c@.take(c@.len() as int) =~= c@);
        assert(v@ =~= old(v)@ + pad66(c@));
    }
}

/// Split a 132-byte raw signature into its two 66-byte halves. Any other
/// length is rejected.
pub fn split_ec_signature(raw: &[u8]) -> (out: Result<(Vec<u8>, Vec<u8>), JwsError>)
    ensures
        out is Ok <==> raw@.len() == 132,
        out matches Ok(p) ==> p.0@ == raw@.subrange(0, 66) && p.1@ == raw@.subrange(66, 132),
        out matches Err(e) ==> e == JwsError::MalformedEncoding,
{
    if raw.len() != 132 {
        return Err(JwsError::MalformedEncoding);
    }
    let (a, b) = raw.split_at(COMPONENT_WIDTH);
    let left = vstd::slice::slice_to_vec(a);
    let right = vstd::slice::slice_to_vec(b);
    Ok((left, right))
}

/// A zero byte in front does not change the value a big-endian byte string
/// stands for.
proof fn lemma_be_val_lead_zero(s: Seq<u8>)
    ensures
        be_val(seq![0u8] + s) == be_val(s),
    decreases s.len(),
{
    if s.len() == 0 {
        assert((seq![0u8] + s) =~= seq![0u8]);
        assert(be_val(seq![0u8]) == be_val(seq![0u8].drop_last()) * 256 + 0);
        assert(seq![0u8].drop_last() =~= Seq::<u8>::empty());
    } else {
        assert((seq![0u8] + s).drop_last() =~= seq![0u8] + s.drop_last());
        assert((seq![0u8] + s).last() == s.last());
        lemma_be_val_lead_zero(s.drop_last());
    }
}

/// Left-padding with zero bytes preserves the big-endian value.
pub proof fn lemma_pad66_value(s: Seq<u8>)
    requires
        s.len() <= 66,
    ensures
        be_val(pad66(s)) == be_val(s),
    decreases 66 - s.len(),
{
    if s.len() == 66 {
        assert(pad66(s) =~= s);
    } else {
        assert(pad66(seq![0u8] + s) =~= pad66(s));
        lemma_pad66_value(seq![0u8] + s);
        lemma_be_val_lead_zero(s);
    }
}

/// Stripping the padding gives back a minimal component exactly.
pub proof fn lemma_pad66_strip(s: Seq<u8>)
    requires
        s.len() <= 66,
        minimal_be(s),
    ensures
        strip_zeros(pad66(s)) == s,
    decreases 66 - s.len(),
{
    assert(pad66(s) =~= Seq::new((66 - s.len()) as nat, |j: int| 0u8) + s);
    lemma_pad66_strip_aux(pad66(s), (66 - s.len()) as nat, s);
}

/// Helper: a byte string that is `k` zero bytes followed by a minimal `s`
/// strips to `s`.
proof fn lemma_pad66_strip_aux(t: Seq<u8>, k: nat, s: Seq<u8>)
    requires
        minimal_be(s),
        t =~= Seq::new(k, |j: int| 0u8) + s,
    ensures
        strip_zeros(t) == s,
    decreases k,
{
    if k == 0 {
        assert(t =~= s);
        if s.len() > 0 {
            assert(strip_zeros(s) == s);
        } else {
            assert(strip_zeros(t) =~= s);
        }
    } else {
        assert(t[0] == 0);
        assert(t.skip(1) =~= Seq::new((k - 1) as nat, |j: int| 0u8) + s);
        lemma_pad66_strip_aux(t.skip(1), (k - 1) as nat, s);
    }
}

/// Padding is injective on minimal components: two different minimal
/// big-endian components never pad to the same 66-byte block.
pub proof fn lemma_pad66_injective(s1: Seq<u8>, s2: Seq<u8>)
    requires
        s1.len() <= 66,
        s2.len() <= 66,
        minimal_be(s1),
        minimal_be(s2),
        pad66(s1) == pad66(s2),
    ensures
        s1 == s2,
{
    lemma_pad66_strip(s1);
    lemma_pad66_strip(s2);
}

/// The fixed-width law: packing two components of at most 66 bytes always
/// yields exactly 132 bytes; the halves of that blob are the padded
/// components; each half stands for the same big integer as the component
/// it came from; and for minimal components, stripping the padding of a
/// half gives the original component back, byte for byte.
pub proof fn lemma_fixed_width_roundtrip(rc: Seq<u8>, sc: Seq<u8>)
    requires
        rc.len() <= 66,
        sc.len() <= 66,
    ensures
        (pad66(rc) + pad66(sc)).len() == 132,
        (pad66(rc) + pad66(sc)).subrange(0, 66) == pad66(rc),
        (pad66(rc) + pad66(sc)).subrange(66, 132) == pad66(sc),
        be_val(pad66(rc)) == be_val(rc),
        be_val(pad66(sc)) == be_val(sc),
        minimal_be(rc) ==> strip_zeros(pad66(rc)) == rc,
        minimal_be(sc) ==> strip_zeros(pad66(sc)) == sc,
{
    assert((pad66(rc) + pad66(sc)).subrange(0, 66) =~= pad66(rc));
    assert((pad66(rc) + pad66(sc)).subrange(66, 132) =~= pad66(sc));
    lemma_pad66_value(rc);
    lemma_pad66_value(sc);
    if minimal_be(rc) {
        lemma_pad66_strip(rc);
    }
    if minimal_be(sc) {
        lemma_pad66_strip(sc);
    }
}

} // verus!
