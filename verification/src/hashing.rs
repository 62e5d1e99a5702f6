//! Streaming SHA-256 digests and their lowercase-hex rendering.
//!
//! The digest itself comes from the `sha2` crate and the rendering from the
//! `hex` crate; both are reached only through the trusted items below. The
//! bytes a hasher has consumed so far are named by [`fed_bytes`], and the
//! digest value by [`sha256_of`], a pure function of those bytes, so that
//! contracts elsewhere can speak of the digest exactly.

use vstd::prelude::*;

verus! {

/// The SHA-256 digest (32 bytes) of `data`. The value is determined by
/// `data` alone; nothing here states which bytes it is.
pub uninterp spec fn sha256_of(data: Seq<u8>) -> Seq<u8>;

/// A `sha2::Sha256` hasher; opaque here, reached only through the trusted
/// functions below.
#[verifier::external_body]
pub struct Hasher {
    inner: sha2::Sha256,
}

/// The bytes fed to a hasher so far, in order.
pub uninterp spec fn fed_bytes(h: Hasher) -> Seq<u8>;

/// Relies on `sha2::Sha256::new` (via `sha2::Digest`): a fresh hasher over
/// no input bytes.
#[verifier::external_body]
pub(crate) fn sha256_new() -> (r: Hasher)
    ensures
        fed_bytes(r) == Seq::<u8>::empty(),
{
    Hasher { inner: <sha2::Sha256 as sha2::Digest>::new() }
}

/// Relies on `sha2::digest::Digest::update`: appends `chunk` to the
/// hasher's input; feeding input piecewise is the same as feeding it whole.
#[verifier::external_body]
pub(crate) fn sha256_update(h: &mut Hasher, chunk: &[u8])
    ensures
        fed_bytes(*final(h)) == fed_bytes(*old(h)) + chunk@,
{
    sha2::Digest::update(&mut h.inner, chunk);
}

/// Relies on `sha2::digest::Digest::finalize`: the digest is 32 bytes and
/// is a function of the fed bytes alone.
#[verifier::external_body]
pub(crate) fn sha256_finalize(h: Hasher) -> (r: Vec<u8>)
    ensures
        r@ == sha256_of(fed_bytes(h)),
        r@.len() == 32,
{
    sha2::Digest::finalize(h.inner).to_vec()
}

/// The lowercase hex character for a nibble value below 16.
pub open spec fn hex_digit(n: u8) -> char {
    if n == 0 {
        '0'
    } else if n == 1 {
        '1'
    } else if n == 2 {
        '2'
    } else if n == 3 {
        '3'
    } else if n == 4 {
        '4'
    } else if n == 5 {
        '5'
    } else if n == 6 {
        '6'
    } else if n == 7 {
        '7'
    } else if n == 8 {
        '8'
    } else if n == 9 {
        '9'
    } else if n == 10 {
        'a'
    } else if n == 11 {
        'b'
    } else if n == 12 {
        'c'
    } else if n == 13 {
        'd'
    } else if n == 14 {
        'e'
    } else {
        'f'
    }
}

/// Lowercase hex rendering of a byte sequence: two digits per byte, the
/// high nibble first.
pub open spec fn hex_of(b: Seq<u8>) -> Seq<char> {
    Seq::new(
        b.len() * 2,
        |i: int|
            if i % 2 == 0 {
                hex_digit(b[i / 2] / 16)
            } else {
                hex_digit(b[i / 2] % 16)
            },
    )
}

/// Relies on `hex::encode`: renders each byte as two lowercase hex digits,
/// high nibble first.
#[verifier::external_body]
pub(crate) fn hex_encode(b: &Vec<u8>) -> (r: String)
    ensures
        r@ == hex_of(b@),
{
    hex::encode(b)
}

} // verus!
