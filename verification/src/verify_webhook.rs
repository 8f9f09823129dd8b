//! The webhook verifier: takes a payload and a detached compact JWS
//! (`header..signature`), reads `jku` and `kid` from the not-yet-verified
//! header, checks `jku` against the fixed allow-list of key-set endpoints,
//! and — once the caller has resolved the key set from that URL — looks the
//! key up by `kid` and checks the signature of the reconstructed full JWS.
//!
//! The untrusted header is handled as a loosely-typed document: its claims
//! are read before any signature is checked, so nothing read from it is
//! trusted beyond the allow-list test. The signature check itself is
//! picky's, behind a trusted wrapper; every decision around it is verified.

use vstd::prelude::*;
use vstd::string::StringSliceAdditionalSpecFns;

use crate::b64::{b64_decode, b64_encode, b64_valid, base64_decode, base64_encode};
use crate::errors::{Claim, JwsError};
use crate::signer::DOT;

verus! {

// --- the detached compact form ---

/// Whether `t` is the detached compact JWS with header segment `h` and
/// signature segment `s`: `h..s`, with no dot inside either segment.
pub open spec fn is_detached_jws(t: Seq<u8>, h: Seq<u8>, s: Seq<u8>) -> bool {
    t == h + seq![DOT, DOT] + s && !h.contains(DOT) && !s.contains(DOT)
}

/// Whether `t` has the detached compact shape at all: exactly three
/// dot-separated segments, the payload segment empty.
pub open spec fn detached_wf(t: Seq<u8>) -> bool {
    exists|h: Seq<u8>, s: Seq<u8>| is_detached_jws(t, h, s)
}

/// A byte string has at most one reading as a detached compact JWS.
pub proof fn lemma_detached_unique(t: Seq<u8>, h1: Seq<u8>, s1: Seq<u8>, h2: Seq<u8>, s2: Seq<u8>)
    requires
        is_detached_jws(t, h1, s1),
        is_detached_jws(t, h2, s2),
    ensures
        h1 == h2,
        s1 == s2,
{
    assert(t.len() == h1.len() + 2 + s1.len());
    assert(t.len() == h2.len() + 2 + s2.len());
    if h1.len() < h2.len() {
        assert(t[h1.len() as int] == (h1 + seq![DOT, DOT] + s1)[h1.len() as int]);
        assert(t[h1.len() as int] == DOT);
        assert(h2[h1.len() as int] == (h2 + seq![DOT, DOT] + s2)[h1.len() as int]);
        assert(h2[h1.len() as int] == DOT);
        assert(h2.contains(DOT));
    } else if h2.len() < h1.len() {
        assert(t[h2.len() as int] == (h2 + seq![DOT, DOT] + s2)[h2.len() as int]);
        assert(t[h2.len() as int] == DOT);
        assert(h1[h2.len() as int] == (h1 + seq![DOT, DOT] + s1)[h2.len() as int]);
        assert(h1[h2.len() as int] == DOT);
        assert(h1.contains(DOT));
    }
    assert forall|j: int| 0 <= j < h1.len() implies h1[j] == h2[j] by {
        assert(h1[j] == (h1 + seq![DOT, DOT] + s1)[j]);
        assert(h2[j] == (h2 + seq![DOT, DOT] + s2)[j]);
    }
    assert(h1 =~= h2);
    assert forall|j: int| 0 <= j < s1.len() implies s1[j] == s2[j] by {
        assert(s1[j] == (h1 + seq![DOT, DOT] + s1)[h1.len() + 2 + j]);
        assert(s2[j] == (h2 + seq![DOT, DOT] + s2)[h2.len() + 2 + j]);
    }
    assert(s1 =~= s2);
}

/// Split a detached compact JWS into its header and signature segments;
/// anything without that exact shape is malformed.
pub fn split_detached(t: &[u8]) -> (out: Result<(Vec<u8>, Vec<u8>), JwsError>)
    ensures
        out matches Ok(p) ==> is_detached_jws(t@, p.0@, p.1@),
        out is Err <==> !detached_wf(t@),
        out matches Err(e) ==> e == JwsError::MalformedJws,
{
    let n = t.len();
    let mut i: usize = 0;
    while i < n && t[i] != DOT
        invariant
            i <= n,
            n == t@.len(),
            forall|j: int| 0 <= j < i ==> t@[j] != DOT,
        decreases n - i,
    {
        i += 1;
    }
    if i == n {
        // no dot anywhere
        proof {
            assert forall|h: Seq<u8>, s: Seq<u8>| !is_detached_jws(t@, h, s) by {
                if is_detached_jws(t@, h, s) {
                    assert(t@[h.len() as int] == DOT);
                }
            }
        }
        return Err(JwsError::MalformedJws);
    }
    if n - i < 2 || t[i + 1] != DOT {
        // a first dot without a second one right after it
        proof {
            assert forall|h: Seq<u8>, s: Seq<u8>| !is_detached_jws(t@, h, s) by {
                if is_detached_jws(t@, h, s) {
                    if h.len() < i {
                        assert(t@[h.len() as int] == DOT);
                    } else if h.len() > i {
                        assert(h[i as int] == DOT);
                        assert(h.contains(DOT));
                    } else {
                        assert(t@[i + 1] == DOT);
                    }
                }
            }
        }
        return Err(JwsError::MalformedJws);
    }
    let mut k: usize = i + 2;
    while k < n
        invariant
            i + 2 <= k <= n,
            n == t@.len(),
            t@[i as int] == DOT,
            t@[i + 1] == DOT,
            forall|j: int| 0 <= j < i ==> t@[j] != DOT,
            forall|j: int| i + 2 <= j < k ==> t@[j] != DOT,
        decreases n - k,
    {
        if t[k] == DOT {
            // a third dot: more than three segments, or a non-empty middle
            proof {
                assert forall|h: Seq<u8>, s: Seq<u8>| !is_detached_jws(t@, h, s) by {
                    if is_detached_jws(t@, h, s) {
                        if h.len() < i {
                            assert(t@[h.len() as int] == DOT);
                        } else if h.len() > i {
                            assert(h[i as int] == DOT);
                            assert(h.contains(DOT));
                        } else {
                            assert(s[k - i - 2] == DOT);
                            assert(s.contains(DOT));
                        }
                    }
                }
            }
            return Err(JwsError::MalformedJws);
        }
        k += 1;
    }
    let header_segment = vstd::slice::slice_to_vec(vstd::slice::slice_subrange(t, 0, i));
    let signature_segment = vstd::slice::slice_to_vec(vstd::slice::slice_subrange(t, i + 2, n));
    proof {
        assert(t@ =~= header_segment@ + seq![DOT, DOT] + signature_segment@);
        assert(forall|j: int| 0 <= j < header_segment@.len() ==> header_segment@[j] != DOT);
        assert(!header_segment@.contains(DOT));
        assert(forall|j: int| 0 <= j < signature_segment@.len() ==> signature_segment@[j] != DOT);
        assert(!signature_segment@.contains(DOT));
        assert(is_detached_jws(t@, header_segment@, signature_segment@));
        assert(detached_wf(t@));
    }
    Ok((header_segment, signature_segment))
}

/// Whether `t` is the full compact JWS with segments `h`, `p` and `s`:
/// `h.p.s`, with no dot inside any segment.
pub open spec fn is_compact_jws(t: Seq<u8>, h: Seq<u8>, p: Seq<u8>, s: Seq<u8>) -> bool {
    t == h + seq![DOT] + p + seq![DOT] + s && !h.contains(DOT) && !p.contains(DOT) && !s.contains(
        DOT,
    )
}

/// Whether `t` has the full compact shape at all: exactly three
/// dot-separated segments.
pub open spec fn compact_wf(t: Seq<u8>) -> bool {
    exists|h: Seq<u8>, p: Seq<u8>, s: Seq<u8>| is_compact_jws(t, h, p, s)
}

/// A byte string has at most one reading as a full compact JWS.
pub proof fn lemma_compact_unique(
    t: Seq<u8>,
    h1: Seq<u8>,
    p1: Seq<u8>,
    s1: Seq<u8>,
    h2: Seq<u8>,
    p2: Seq<u8>,
    s2: Seq<u8>,
)
    requires
        is_compact_jws(t, h1, p1, s1),
        is_compact_jws(t, h2, p2, s2),
    ensures
        h1 == h2,
        p1 == p2,
        s1 == s2,
{
    assert(t.len() == h1.len() + 2 + p1.len() + s1.len());
    assert(t.len() == h2.len() + 2 + p2.len() + s2.len());
    if h1.len() < h2.len() {
        assert(t[h1.len() as int] == (h1 + seq![DOT] + p1 + seq![DOT] + s1)[h1.len() as int]);
        assert(h2[h1.len() as int] == (h2 + seq![DOT] + p2 + seq![DOT] + s2)[h1.len() as int]);
        assert(h2[h1.len() as int] == DOT);
        assert(h2.contains(DOT));
    } else if h2.len() < h1.len() {
        assert(t[h2.len() as int] == (h2 + seq![DOT] + p2 + seq![DOT] + s2)[h2.len() as int]);
        assert(h1[h2.len() as int] == (h1 + seq![DOT] + p1 + seq![DOT] + s1)[h2.len() as int]);
        assert(h1[h2.len() as int] == DOT);
        assert(h1.contains(DOT));
    }
    if p1.len() < p2.len() {
        let d: int = h1.len() as int + 1 + p1.len() as int;
        assert(t[d] == (h1 + seq![DOT] + p1 + seq![DOT] + s1)[d]);
        assert(p2[p1.len() as int] == (h2 + seq![DOT] + p2 + seq![DOT] + s2)[d]);
        assert(p2[p1.len() as int] == DOT);
        assert(p2.contains(DOT));
    } else if p2.len() < p1.len() {
        let d: int = h2.len() as int + 1 + p2.len() as int;
        assert(t[d] == (h2 + seq![DOT] + p2 + seq![DOT] + s2)[d]);
        assert(p1[p2.len() as int] == (h1 + seq![DOT] + p1 + seq![DOT] + s1)[d]);
        assert(p1[p2.len() as int] == DOT);
        assert(p1.contains(DOT));
    }
    assert forall|j: int| 0 <= j < h1.len() implies h1[j] == h2[j] by {
        assert(h1[j] == (h1 + seq![DOT] + p1 + seq![DOT] + s1)[j]);
        assert(h2[j] == (h2 + seq![DOT] + p2 + seq![DOT] + s2)[j]);
    }
    assert(h1 =~= h2);
    assert forall|j: int| 0 <= j < p1.len() implies p1[j] == p2[j] by {
        assert(p1[j] == (h1 + seq![DOT] + p1 + seq![DOT] + s1)[h1.len() + 1 + j]);
        assert(p2[j] == (h2 + seq![DOT] + p2 + seq![DOT] + s2)[h2.len() + 1 + j]);
    }
    assert(p1 =~= p2);
    assert forall|j: int| 0 <= j < s1.len() implies s1[j] == s2[j] by {
        assert(s1[j] == (h1 + seq![DOT] + p1 + seq![DOT] + s1)[h1.len() + 2 + p1.len() + j]);
        assert(s2[j] == (h2 + seq![DOT] + p2 + seq![DOT] + s2)[h2.len() + 2 + p2.len() + j]);
    }
    assert(s1 =~= s2);
}

/// Drop the payload segment of a full compact JWS: `h.p.s` becomes the
/// detached form `h..s`. Anything but three dot-separated segments is
/// malformed.
pub fn detach_jws(jws: &[u8]) -> (out: Result<Vec<u8>, JwsError>)
    ensures
        out matches Ok(d) ==> exists|h: Seq<u8>, p: Seq<u8>, s: Seq<u8>|
            #[trigger] is_compact_jws(jws@, h, p, s) && d@ == h + seq![DOT, DOT] + s
                && is_detached_jws(d@, h, s),
        out is Err <==> !compact_wf(jws@),
        out matches Err(e) ==> e == JwsError::MalformedJws,
{
    let n = jws.len();
    let mut i: usize = 0;
    while i < n && jws[i] != DOT
        invariant
            i <= n,
            n == jws@.len(),
            forall|j: int| 0 <= j < i ==> jws@[j] != DOT,
        decreases n - i,
    {
        i += 1;
    }
    if i == n {
        // no dot anywhere
        proof {
            assert forall|h: Seq<u8>, p: Seq<u8>, s: Seq<u8>| !is_compact_jws(jws@, h, p, s) by {
                if is_compact_jws(jws@, h, p, s) {
                    assert(jws@.len() == h.len() + 2 + p.len() + s.len());
                    assert(jws@[h.len() as int] == (h + seq![DOT] + p + seq![DOT] + s)[h.len()
                        as int]);
                    assert(jws@[h.len() as int] == DOT);
                }
            }
        }
        return Err(JwsError::MalformedJws);
    }
    let mut m: usize = i + 1;
    while m < n && jws[m] != DOT
        invariant
            i < m <= n,
            n == jws@.len(),
            jws@[i as int] == DOT,
            forall|j: int| 0 <= j < i ==> jws@[j] != DOT,
            forall|j: int| i < j < m ==> jws@[j] != DOT,
        decreases n - m,
    {
        m += 1;
    }
    if m == n {
        // only one dot: two segments, not three
        proof {
            assert forall|h: Seq<u8>, p: Seq<u8>, s: Seq<u8>| !is_compact_jws(jws@, h, p, s) by {
                if is_compact_jws(jws@, h, p, s) {
                    assert(jws@.len() == h.len() + 2 + p.len() + s.len());
                    if h.len() < i {
                        assert(jws@[h.len() as int] == (h + seq![DOT] + p + seq![DOT]
                            + s)[h.len() as int]);
                        assert(jws@[h.len() as int] == DOT);
                    } else if h.len() > i {
                        assert(h[i as int] == (h + seq![DOT] + p + seq![DOT] + s)[i as int]);
                        assert(h[i as int] == DOT);
                        assert(h.contains(DOT));
                    } else {
                        let d2: int = i as int + 1 + p.len() as int;
                        assert(jws@[d2] == (h + seq![DOT] + p + seq![DOT] + s)[d2]);
                        assert(jws@[d2] == DOT);
                    }
                }
            }
        }
        return Err(JwsError::MalformedJws);
    }
    let mut k: usize = m + 1;
    while k < n
        invariant
            i < m < k <= n,
            n == jws@.len(),
            jws@[i as int] == DOT,
            jws@[m as int] == DOT,
            forall|j: int| 0 <= j < i ==> jws@[j] != DOT,
            forall|j: int| i < j < m ==> jws@[j] != DOT,
            forall|j: int| m < j < k ==> jws@[j] != DOT,
        decreases n - k,
    {
        if jws[k] == DOT {
            // a third dot: more than three segments
            proof {
                assert forall|h: Seq<u8>, p: Seq<u8>, s: Seq<u8>| !is_compact_jws(
                    jws@,
                    h,
                    p,
                    s,
                ) by {
                    if is_compact_jws(jws@, h, p, s) {
                        assert(jws@.len() == h.len() + 2 + p.len() + s.len());
                        if h.len() < i {
                            assert(jws@[h.len() as int] == (h + seq![DOT] + p + seq![DOT]
                                + s)[h.len() as int]);
                            assert(jws@[h.len() as int] == DOT);
                        } else if h.len() > i {
                            assert(h[i as int] == (h + seq![DOT] + p + seq![DOT] + s)[i as int]);
                            assert(h[i as int] == DOT);
                            assert(h.contains(DOT));
                        } else {
                            let d2: int = i as int + 1 + p.len() as int;
                            if d2 < m {
                                assert(jws@[d2] == (h + seq![DOT] + p + seq![DOT] + s)[d2]);
                                assert(jws@[d2] == DOT);
                            } else if d2 > m {
                                assert(p[m - i - 1] == (h + seq![DOT] + p + seq![DOT] + s)[m
                                    as int]);
                                assert(p[m - i - 1] == DOT);
                                assert(p.contains(DOT));
                            } else {
                                assert(s[k - m - 1] == (h + seq![DOT] + p + seq![DOT] + s)[k
                                    as int]);
                                assert(s[k - m - 1] == DOT);
                                assert(s.contains(DOT));
                            }
                        }
                    }
                }
            }
            return Err(JwsError::MalformedJws);
        }
        k += 1;
    }
    let header_segment = vstd::slice::slice_subrange(jws, 0, i);
    let payload_segment = vstd::slice::slice_subrange(jws, i + 1, m);
    let signature_segment = vstd::slice::slice_subrange(jws, m + 1, n);
    let mut detached = vstd::slice::slice_to_vec(header_segment);
    detached.push(DOT);
    detached.push(DOT);
    let mut sig = vstd::slice::slice_to_vec(signature_segment);
    detached.append(&mut sig);
    proof {
        let h = header_segment@;
        let p = payload_segment@;
        let s = signature_segment@;
        assert(jws@ =~= h + seq![DOT] + p + seq![DOT] + s);
        assert(forall|j: int| 0 <= j < h.len() ==> h[j] != DOT);
        assert(!h.contains(DOT));
        assert(forall|j: int| 0 <= j < p.len() ==> p[j] != DOT);
        assert(!p.contains(DOT));
        assert(forall|j: int| 0 <= j < s.len() ==> s[j] != DOT);
        assert(!s.contains(DOT));
        assert(is_compact_jws(jws@, h, p, s));
        assert(compact_wf(jws@));
        assert(detached@ =~= h + seq![DOT, DOT] + s);
        assert(is_detached_jws(detached@, h, s));
    }
    Ok(detached)
}

// --- the untrusted header document ---

/// What the JSON object in a decoded header segment holds in its `jku` and
/// `kid` string members: `None` when the bytes are not a JSON object;
/// otherwise the two members, each `None` when absent or not a string. A
/// function of the bytes alone.
pub uninterp spec fn header_claims_of(b: Seq<u8>) -> Option<(Option<Seq<u8>>, Option<Seq<u8>>)>;

/// The view of an executable claims result, for tying the parser wrapper
/// to `header_claims_of`.
pub open spec fn claims_view(r: Option<(Option<Vec<u8>>, Option<Vec<u8>>)>) -> Option<
    (Option<Seq<u8>>, Option<Seq<u8>>),
> {
    match r {
        Option::None => Option::None,
        Option::Some(claims) => Option::Some(
            (
                match claims.0 {
                    Option::None => Option::None,
                    Option::Some(v) => Option::Some(v@),
                },
                match claims.1 {
                    Option::None => Option::None,
                    Option::Some(v) => Option::Some(v@),
                },
            ),
        ),
    }
}

/// Relies on serde_json's `from_slice` for `Value`, `Value::is_object`,
/// `Value::get` and the `Value::String` variant: which string members
/// `jku` and `kid` a JSON object holds is a function of the bytes alone.
#[verifier::external_body]
fn parse_header_claims(b: &[u8]) -> (r: Option<(Option<Vec<u8>>, Option<Vec<u8>>)>)
    ensures
        claims_view(r) == header_claims_of(b@),
{
    let doc = match serde_json::from_slice::<serde_json::Value>(b) {
        Ok(v) if v.is_object() => v,
        _ => return None,
    };
    let jku = match doc.get("jku") {
        Some(serde_json::Value::String(s)) => Some(s.clone().into_bytes()),
        _ => None,
    };
    let kid = match doc.get("kid") {
        Some(serde_json::Value::String(s)) => Some(s.clone().into_bytes()),
        _ => None,
    };
    Some((jku, kid))
}

// --- the trust-anchor allow-list ---

/// The production key-set endpoint.
pub open spec fn spec_production_url() -> Seq<u8> {
    "https://webhooks.truelayer.com/.well-known/jwks".spec_bytes()
}

/// The sandbox key-set endpoint.
pub open spec fn spec_sandbox_url() -> Seq<u8> {
    "https://webhooks.truelayer-sandbox.com/.well-known/jwks".spec_bytes()
}

/// Whether `u` is one of the two trusted key-set endpoints. The header is
/// attacker-influenced input: any other URL must never be fetched.
pub open spec fn allowed_jwks_url(u: Seq<u8>) -> bool {
    u == spec_production_url() || u == spec_sandbox_url()
}

/// Byte-for-byte equality of two byte strings.
fn bytes_eq(a: &[u8], b: &[u8]) -> (r: bool)
    ensures
        r == (a@ == b@),
{
    if a.len() != b.len() {
        return false;
    }
    let n = a.len();
    let mut i: usize = 0;
    while i < n
        invariant
            i <= n,
            n == a@.len() == b@.len(),
            forall|j: int| 0 <= j < i ==> a@[j] == b@[j],
        decreases n - i,
    {
        if a[i] != b[i] {
            return false;
        }
        i += 1;
    }
    proof {
        assert(a@ =~= b@);
    }
    true
}

/// Whether `u` is in the allow-list of trusted key-set endpoints.
pub fn is_allowed_jwks_url(u: &[u8]) -> (r: bool)
    ensures
        r == allowed_jwks_url(u@),
{
    let production: &str = "https://webhooks.truelayer.com/.well-known/jwks";
    let sandbox: &str = "https://webhooks.truelayer-sandbox.com/.well-known/jwks";
    bytes_eq(u, production.as_bytes()) || bytes_eq(u, sandbox.as_bytes())
}

// --- the first, network-free stage of verification ---

/// Everything the verifier establishes before any key is resolved: the raw
/// header and signature segments and the two claims, with the key-set URL
/// already checked against the allow-list.
#[derive(Debug, PartialEq, Eq)]
pub struct VerifyRequest {
    /// The base64url header segment, exactly as it appeared.
    pub header_segment: Vec<u8>,
    /// The base64url signature segment, exactly as it appeared.
    pub signature_segment: Vec<u8>,
    /// The `jku` claim: a member of the allow-list.
    pub jku: Vec<u8>,
    /// The `kid` claim: the identifier of the verification key.
    pub kid: Vec<u8>,
}

/// What `prepare_verification` returns once the segments of the detached
/// form are fixed: each failure tied exactly to the condition that causes
/// it, in the order the checks are made.
pub open spec fn prepare_result_for(
    h: Seq<u8>,
    s: Seq<u8>,
    out: Result<VerifyRequest, JwsError>,
) -> bool {
    if !b64_valid(h) {
        out == Err::<VerifyRequest, JwsError>(JwsError::MalformedEncoding)
    } else {
        match header_claims_of(b64_decode(h)) {
            Option::None => out == Err::<VerifyRequest, JwsError>(JwsError::MalformedJws),
            Option::Some(claims) => match claims.0 {
                Option::None => out == Err::<VerifyRequest, JwsError>(
                    JwsError::MissingClaim(Claim::Jku),
                ),
                Option::Some(jku) => match claims.1 {
                    Option::None => out == Err::<VerifyRequest, JwsError>(
                        JwsError::MissingClaim(Claim::Kid),
                    ),
                    Option::Some(kid) => if !allowed_jwks_url(jku) {
                        out == Err::<VerifyRequest, JwsError>(JwsError::UntrustedKeySetUrl)
                    } else {
                        out matches Ok(rq) && rq.header_segment@ == h && rq.signature_segment@ == s
                            && rq.jku@ == jku && rq.kid@ == kid
                    },
                },
            },
        }
    }
}

/// The network-free stage of verification: split the detached form, decode
/// the header, read `jku` and `kid`, and check `jku` against the
/// allow-list. No key set is fetched here — the caller resolves `jku` only
/// after this succeeds, so an untrusted URL is rejected without any
/// network access.
pub fn prepare_verification(detached_jws: &[u8]) -> (out: Result<VerifyRequest, JwsError>)
    ensures
        !detached_wf(detached_jws@) ==> out == Err::<VerifyRequest, JwsError>(
            JwsError::MalformedJws,
        ),
        forall|h: Seq<u8>, s: Seq<u8>|
            #[trigger] is_detached_jws(detached_jws@, h, s) ==> prepare_result_for(h, s, out),
        out matches Ok(rq) ==> is_detached_jws(detached_jws@, rq.header_segment@,
            rq.signature_segment@) && b64_valid(rq.header_segment@) && header_claims_of(
            b64_decode(rq.header_segment@),
        ) == Option::Some((Option::Some(rq.jku@), Option::Some(rq.kid@))) && allowed_jwks_url(
            rq.jku@,
        ),
{
    let (header_segment, signature_segment) = match split_detached(detached_jws) {
        Ok(p) => p,
        Err(e) => {
            return Err(e);
        },
    };
    let ghost gh = header_segment@;
    let ghost gs = signature_segment@;
    let header_bytes = match base64_decode(header_segment.as_slice()) {
        Ok(v) => v,
        Err(_) => {
            proof {
                assert forall|h: Seq<u8>, s: Seq<u8>|
                    #[trigger] is_detached_jws(detached_jws@, h, s) implies prepare_result_for(
                    h,
                    s,
                    Err::<VerifyRequest, JwsError>(JwsError::MalformedEncoding),
                ) by {
                    lemma_detached_unique(detached_jws@, gh, gs, h, s);
                }
            }
            return Err(JwsError::MalformedEncoding);
        },
    };
    let claims = match parse_header_claims(header_bytes.as_slice()) {
        Some(c) => c,
        None => {
            proof {
                assert forall|h: Seq<u8>, s: Seq<u8>|
                    #[trigger] is_detached_jws(detached_jws@, h, s) implies prepare_result_for(
                    h,
                    s,
                    Err::<VerifyRequest, JwsError>(JwsError::MalformedJws),
                ) by {
                    lemma_detached_unique(detached_jws@, gh, gs, h, s);
                }
            }
            return Err(JwsError::MalformedJws);
        },
    };
    let jku = match claims.0 {
        Some(j) => j,
        None => {
            proof {
                assert forall|h: Seq<u8>, s: Seq<u8>|
                    #[trigger] is_detached_jws(detached_jws@, h, s) implies prepare_result_for(
                    h,
                    s,
                    Err::<VerifyRequest, JwsError>(JwsError::MissingClaim(Claim::Jku)),
                ) by {
                    lemma_detached_unique(detached_jws@, gh, gs, h, s);
                }
            }
            return Err(JwsError::MissingClaim(Claim::Jku));
        },
    };
    let kid = match claims.1 {
        Some(k) => k,
        None => {
            proof {
                assert forall|h: Seq<u8>, s: Seq<u8>|
                    #[trigger] is_detached_jws(detached_jws@, h, s) implies prepare_result_for(
                    h,
                    s,
                    Err::<VerifyRequest, JwsError>(JwsError::MissingClaim(Claim::Kid)),
                ) by {
                    lemma_detached_unique(detached_jws@, gh, gs, h, s);
                }
            }
            return Err(JwsError::MissingClaim(Claim::Kid));
        },
    };
    if !is_allowed_jwks_url(jku.as_slice()) {
        proof {
            assert forall|h: Seq<u8>, s: Seq<u8>|
                #[trigger] is_detached_jws(detached_jws@, h, s) implies prepare_result_for(
                h,
                s,
                Err::<VerifyRequest, JwsError>(JwsError::UntrustedKeySetUrl),
            ) by {
                lemma_detached_unique(detached_jws@, gh, gs, h, s);
            }
        }
        return Err(JwsError::UntrustedKeySetUrl);
    }
    let request = VerifyRequest { header_segment, signature_segment, jku, kid };
    proof {
        assert forall|h: Seq<u8>, s: Seq<u8>|
            #[trigger] is_detached_jws(detached_jws@, h, s) implies prepare_result_for(
            h,
            s,
            Ok::<VerifyRequest, JwsError>(request),
        ) by {
            lemma_detached_unique(detached_jws@, gh, gs, h, s);
        }
    }
    Ok(request)
}

// --- the key set and the final stage of verification ---

/// picky's public key material, carried opaquely through the key set.
#[verifier::external_type_specification]
#[verifier::external_body]
pub struct ExPublicKey(picky::key::PublicKey);

/// One record of a key set: an optional key identifier and the public key
/// material it names.
pub struct KeyEntry {
    /// The record's `kid`, when it has one.
    pub kid: Option<Vec<u8>>,
    /// The record's public key material.
    pub key: picky::key::PublicKey,
}

/// An ordered key set (a JWKS): lookup is by exact equality on `kid`, and
/// the first matching record wins when identifiers repeat.
pub struct KeySet {
    /// The records, in the order the key set lists them.
    pub keys: Vec<KeyEntry>,
}

/// Whether a key-set record carries exactly the requested identifier.
pub open spec fn entry_matches(e: KeyEntry, kid: Seq<u8>) -> bool {
    e.kid matches Option::Some(k) && k@ == kid
}

/// Look up the record whose `kid` equals the requested identifier: the
/// first match wins; no match at all is `KeyNotFound`.
pub fn find_key<'a>(keys: &'a KeySet, kid: &[u8]) -> (out: Result<
    &'a picky::key::PublicKey,
    JwsError,
>)
    ensures
        out is Ok <==> exists|i: int|
            0 <= i < keys.keys@.len() && entry_matches(#[trigger] keys.keys@[i], kid@),
        out matches Ok(k) ==> exists|i: int|
            0 <= i < keys.keys@.len() && entry_matches(#[trigger] keys.keys@[i], kid@) && *k
                == keys.keys@[i].key && (forall|j: int|
                0 <= j < i ==> !entry_matches(#[trigger] keys.keys@[j], kid@)),
        out matches Err(e) ==> e == JwsError::KeyNotFound,
{
    let n = keys.keys.len();
    let mut i: usize = 0;
    while i < n
        invariant
            i <= n,
            n == keys.keys@.len(),
            forall|j: int| 0 <= j < i ==> !entry_matches(#[trigger] keys.keys@[j], kid@),
        decreases n - i,
    {
        let entry = &keys.keys[i];
        let found = match &entry.kid {
            Some(k) => bytes_eq(k.as_slice(), kid),
            None => false,
        };
        if found {
            return Ok(&entry.key);
        }
        i += 1;
    }
    Err(JwsError::KeyNotFound)
}

/// The full compact JWS that a detached form stands for once the payload
/// is substituted back into the middle segment.
pub open spec fn reconstructed_jws(h: Seq<u8>, body: Seq<u8>, s: Seq<u8>) -> Seq<u8> {
    h + seq![DOT] + b64_encode(body) + seq![DOT] + s
}

/// Rebuild the full compact JWS around the real payload:
/// `header.base64url(body).signature`.
pub fn reconstruct_jws(header_segment: &[u8], body: &[u8], signature_segment: &[u8]) -> (r: Vec<
    u8,
>)
    ensures
        r@ == reconstructed_jws(header_segment@, body@, signature_segment@),
{
    let mut jws = vstd::slice::slice_to_vec(header_segment);
    jws.push(DOT);
    let mut body_b64 = base64_encode(body);
    jws.append(&mut body_b64);
    jws.push(DOT);
    let mut sig = vstd::slice::slice_to_vec(signature_segment);
    jws.append(&mut sig);
    proof {
        assert(jws@ =~= reconstructed_jws(header_segment@, body@, signature_segment@));
    }
    jws
}

/// Relies on picky's `Jws::decode`: it base64url-decodes the segments of
/// the compact form, reads the algorithm from the header and checks the
/// signature of `header.payload` against the given public key; true
/// exactly when picky accepts the token.
#[verifier::external_body]
fn jws_signature_checks(jws: &[u8], key: &picky::key::PublicKey) -> (r: bool) {
    match core::str::from_utf8(jws) {
        Ok(token) => picky::jose::jws::Jws::decode(token, key).is_ok(),
        Err(_) => false,
    }
}

/// The final stage of verification, once the caller has resolved the key
/// set from the trusted `jku`: find the key named by `kid` (first match
/// wins), reconstruct the full JWS around the payload, and check its
/// signature. A signature segment that is not well-formed base64url is
/// reported as `SignatureInvalid`, indistinguishable from a signature that
/// does not check, and so is any failure inside the signature check
/// itself. Success is all-or-nothing: `Ok` only when a key was found, the
/// signature segment decoded, and the cryptographic check passed.
pub fn complete_verification(body: &[u8], request: &VerifyRequest, keys: &KeySet) -> (out: Result<
    (),
    JwsError,
>)
    ensures
        out == Err::<(), JwsError>(JwsError::KeyNotFound) <==> !exists|i: int|
            0 <= i < keys.keys@.len() && entry_matches(#[trigger] keys.keys@[i], request.kid@),
        out matches Err(e) ==> e == JwsError::KeyNotFound || e == JwsError::SignatureInvalid,
        !b64_valid(request.signature_segment@) && (exists|i: int|
            0 <= i < keys.keys@.len() && entry_matches(#[trigger] keys.keys@[i], request.kid@))
            ==> out == Err::<(), JwsError>(JwsError::SignatureInvalid),
        out is Ok ==> b64_valid(request.signature_segment@) && exists|i: int|
            0 <= i < keys.keys@.len() && entry_matches(#[trigger] keys.keys@[i], request.kid@),
{
    let key = match find_key(keys, request.kid.as_slice()) {
        Ok(k) => k,
        Err(_) => {
            return Err(JwsError::KeyNotFound);
        },
    };
    match base64_decode(request.signature_segment.as_slice()) {
        Ok(_) => {},
        Err(_) => {
            return Err(JwsError::SignatureInvalid);
        },
    }
    let jws = reconstruct_jws(
        request.header_segment.as_slice(),
        body,
        request.signature_segment.as_slice(),
    );
    if jws_signature_checks(jws.as_slice(), key) {
        Ok(())
    } else {
        Err(JwsError::SignatureInvalid)
    }
}

/// Law (round-trip structure): a compact JWS shaped as the signer shapes
/// it — signing input, dot, base64url signature — reads as a full compact
/// JWS in exactly one way, its segments are the encodings the signer
/// produced, its detached form `header..signature` is well-formed, and
/// that detached form reads back into exactly the signer's header and
/// signature segments. The cryptographic half of the round trip lives in
/// the signature primitives and is exercised by tests.
pub proof fn lemma_sign_detach_split(header_json: Seq<u8>, payload: Seq<u8>, raw: Seq<u8>)
    ensures
        is_compact_jws(
            crate::signer::signing_input_of(header_json, payload) + seq![DOT] + b64_encode(raw),
            b64_encode(header_json),
            b64_encode(payload),
            b64_encode(raw),
        ),
        is_detached_jws(
            b64_encode(header_json) + seq![DOT, DOT] + b64_encode(raw),
            b64_encode(header_json),
            b64_encode(raw),
        ),
        detached_wf(b64_encode(header_json) + seq![DOT, DOT] + b64_encode(raw)),
{
    crate::b64::lemma_b64_encode_alphabet(header_json);
    crate::b64::lemma_b64_encode_alphabet(payload);
    crate::b64::lemma_b64_encode_alphabet(raw);
    assert(!crate::b64::is_b64_byte(DOT));
    assert forall|j: int| 0 <= j < b64_encode(header_json).len() implies b64_encode(header_json)[j]
        != DOT by {
        assert(crate::b64::is_b64_byte(b64_encode(header_json)[j]));
    }
    assert(!b64_encode(header_json).contains(DOT));
    assert forall|j: int| 0 <= j < b64_encode(payload).len() implies b64_encode(payload)[j]
        != DOT by {
        assert(crate::b64::is_b64_byte(b64_encode(payload)[j]));
    }
    assert(!b64_encode(payload).contains(DOT));
    assert forall|j: int| 0 <= j < b64_encode(raw).len() implies b64_encode(raw)[j] != DOT by {
        assert(crate::b64::is_b64_byte(b64_encode(raw)[j]));
    }
    assert(!b64_encode(raw).contains(DOT));
    assert(crate::signer::signing_input_of(header_json, payload) + seq![DOT] + b64_encode(raw)
        =~= b64_encode(header_json) + seq![DOT] + b64_encode(payload) + seq![DOT] + b64_encode(
        raw,
    ));
    assert(is_detached_jws(
        b64_encode(header_json) + seq![DOT, DOT] + b64_encode(raw),
        b64_encode(header_json),
        b64_encode(raw),
    ));
    assert(detached_wf(b64_encode(header_json) + seq![DOT, DOT] + b64_encode(raw)));
}

} // verus!
