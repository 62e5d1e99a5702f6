//! The signature verifier: a digest over `secret || body` rendered as
//! lowercase hex and compared against the part of the presented header
//! value after its first `=`.
//!
//! The presented value is expected to look like `sha256=<hexdigest>`, but
//! the scheme prefix is never inspected: everything after the first `=` is
//! taken as the claimed digest. A value without any `=` is malformed.

use crate::hashing::{hex_encode, hex_of, sha256_finalize, sha256_new, sha256_of, sha256_update};
use crate::strutil::{find_char, find_from, occurs_from, str_eq};
use vstd::prelude::*;
use vstd::string::StrSliceExecFns;

verus! {

/// The outcome of checking one presented signature value.
#[derive(Debug, PartialEq, Eq, Structural, Clone, Copy)]
pub enum SigCheck {
    /// The claimed digest equals the computed one.
    Valid,
    /// The presented value parses but its digest differs.
    Mismatch,
    /// The presented value holds no `=` and cannot be parsed.
    Malformed,
}

/// The digest a signer is expected to present for this secret and body:
/// lowercase hex of the SHA-256 digest of `secret || body`.
pub open spec fn expected_hex(secret: Seq<u8>, body: Seq<u8>) -> Seq<char> {
    hex_of(sha256_of(secret + body))
}

/// The claimed digest inside a presented value: everything after the first
/// `=`, or nothing when no `=` occurs.
pub open spec fn claimed_digest(presented: Seq<char>) -> Option<Seq<char>> {
    let i = find_from(presented, '=', 0);
    if i < presented.len() {
        Some(presented.subrange(i + 1, presented.len() as int))
    } else {
        None
    }
}

/// What checking a presented value against this secret and body yields.
pub open spec fn sig_check_spec(secret: Seq<u8>, body: Seq<u8>, presented: Seq<char>) -> SigCheck {
    match claimed_digest(presented) {
        Option::None => SigCheck::Malformed,
        Option::Some(d) => if d == expected_hex(secret, body) {
            SigCheck::Valid
        } else {
            SigCheck::Mismatch
        },
    }
}

/// Check `presented` against the digest of `secret` followed by the body,
/// which arrives as a sequence of chunks and is hashed in arrival order.
pub fn verify(secret: &[u8], chunks: &Vec<Vec<u8>>, presented: &str) -> (r: SigCheck)
    ensures
        r == sig_check_spec(secret@, chunks.deep_view().flatten(), presented@),
{
    let plen = presented.unicode_len();
    let suffix: &str = match find_char(presented, '=') {
        Option::None => {
            return SigCheck::Malformed;
        },
        Option::Some(i) => presented.substring_char(i + 1, plen),
    };
    let mut h = sha256_new();
    sha256_update(&mut h, secret);
    let ghost all: Seq<Seq<u8>> = chunks.deep_view();
    let mut k: usize = 0;
    while k < chunks.len()
        invariant
            0 <= k <= chunks.len(),
            all == chunks.deep_view(),
            all.len() == chunks@.len(),
            forall|j: int| 0 <= j < all.len() ==> all[j] == chunks@[j]@,
            crate::hashing::fed_bytes(h) == secret@ + all.take(k as int).flatten(),
        decreases chunks.len() - k,
    {
        sha256_update(&mut h, chunks[k].as_slice());
        proof {
            let prev = all.take(k as int);
            prev.lemma_flatten_push(all[k as int]);
            assert(all.take(k as int + 1) =~= prev.push(all[k as int]));
            assert(secret@ + prev.flatten() + all[k as int] =~= secret@ + (prev.flatten()
                + all[k as int]));
        }
        k += 1;
    }
    proof {
        assert(all.take(chunks@.len() as int) =~= all);
    }
    let digest = sha256_finalize(h);
    let computed = hex_encode(&digest);
    if str_eq(computed.as_str(), suffix) {
        SigCheck::Valid
    } else {
        SigCheck::Mismatch
    }
}

/// The first `=` in `scheme + "=" + rest` sits right after `scheme`
/// whenever `scheme` itself holds no `=`.
proof fn lemma_claimed_digest_of_framed(scheme: Seq<char>, rest: Seq<char>)
    requires
        !occurs_from(scheme, '=', 0),
    ensures
        claimed_digest(scheme + seq!['='] + rest) == Option::Some(rest),
{
    let p = scheme + seq!['='] + rest;
    assert(p[scheme.len() as int] == '=');
    lemma_find_from_reaches(p, '=', 0, scheme.len() as int);
    assert(p.subrange(scheme.len() as int + 1, p.len() as int) =~= rest);
}

/// `find_from` started at `i` stops at `n`, the first occurrence at or
/// after `i`.
proof fn lemma_find_from_reaches(s: Seq<char>, c: char, i: int, n: int)
    requires
        0 <= i <= n < s.len(),
        s[n] == c,
        forall|j: int| i <= j < n ==> s[j] != c,
    ensures
        find_from(s, c, i) == n,
    decreases n - i,
{
    if i < n {
        lemma_find_from_reaches(s, c, i + 1, n);
    }
}

/// Round trip: a value framed as `scheme=` followed by exactly the digest
/// this secret and body produce is accepted, for every scheme without `=`.
pub proof fn lemma_verify_round_trip(secret: Seq<u8>, body: Seq<u8>, scheme: Seq<char>)
    requires
        !occurs_from(scheme, '=', 0),
    ensures
        sig_check_spec(secret, body, scheme + seq!['='] + expected_hex(secret, body))
            == SigCheck::Valid,
{
    lemma_claimed_digest_of_framed(scheme, expected_hex(secret, body));
}

/// A value carrying the digest for some other body is accepted only when
/// the two bodies' digests render identically; in particular, distinct
/// digests are always rejected as a mismatch.
pub proof fn lemma_verify_detects_substitution(
    secret: Seq<u8>,
    body: Seq<u8>,
    other: Seq<u8>,
    scheme: Seq<char>,
)
    requires
        !occurs_from(scheme, '=', 0),
    ensures
        sig_check_spec(secret, body, scheme + seq!['='] + expected_hex(secret, other))
            == SigCheck::Valid <==> expected_hex(secret, body) == expected_hex(secret, other),
        expected_hex(secret, body) != expected_hex(secret, other)
            ==> sig_check_spec(secret, body, scheme + seq!['='] + expected_hex(secret, other))
            == SigCheck::Mismatch,
{
    lemma_claimed_digest_of_framed(scheme, expected_hex(secret, other));
}

} // verus!
