//! State and block commitments: 256-bit digests of canonical serializations.

use vstd::prelude::*;
use crate::crypto::{sha256, sha256_of};

verus! {

/// A 256-bit commitment, held as four 64-bit words (little-endian within each
/// word). A commitment is the SHA-256 digest of a canonical byte encoding;
/// two values commit equally exactly when their canonical encodings hash
/// equally.
#[derive(Clone, Copy, Debug, PartialEq, Eq, Structural, Hash)]
pub struct Commitment {
    pub w0: u64,
    pub w1: u64,
    pub w2: u64,
    pub w3: u64,
}

/// The commitment packed from a 32-byte digest.
pub open spec fn pack_digest(d: Seq<u8>) -> Commitment
    recommends
        d.len() == 32,
{
    Commitment {
        w0: vstd::bytes::spec_u64_from_le_bytes(d.subrange(0, 8)),
        w1: vstd::bytes::spec_u64_from_le_bytes(d.subrange(8, 16)),
        w2: vstd::bytes::spec_u64_from_le_bytes(d.subrange(16, 24)),
        w3: vstd::bytes::spec_u64_from_le_bytes(d.subrange(24, 32)),
    }
}

/// The commitment of a byte string: its SHA-256 digest, packed.
pub open spec fn commitment_of(bytes: Seq<u8>) -> Commitment {
    pack_digest(sha256_of(bytes))
}

/// The 32-byte canonical encoding of a commitment.
pub open spec fn commitment_enc(c: Commitment) -> Seq<u8> {
    vstd::bytes::spec_u64_to_le_bytes(c.w0) + vstd::bytes::spec_u64_to_le_bytes(c.w1)
        + vstd::bytes::spec_u64_to_le_bytes(c.w2) + vstd::bytes::spec_u64_to_le_bytes(c.w3)
}

/// Commit to a byte string.
pub fn commit_bytes(bytes: &Vec<u8>) -> (r: Commitment)
    ensures
        r == commitment_of(bytes@),
{
    let d = sha256(bytes);
    let w0 = vstd::bytes::u64_from_le_bytes(vstd::slice::slice_subrange(d.as_slice(), 0, 8));
    let w1 = vstd::bytes::u64_from_le_bytes(vstd::slice::slice_subrange(d.as_slice(), 8, 16));
    let w2 = vstd::bytes::u64_from_le_bytes(vstd::slice::slice_subrange(d.as_slice(), 16, 24));
    let w3 = vstd::bytes::u64_from_le_bytes(vstd::slice::slice_subrange(d.as_slice(), 24, 32));
    Commitment { w0, w1, w2, w3 }
}

/// Append the canonical encoding of a commitment to a byte string.
pub fn append_commitment(out: &mut Vec<u8>, c: &Commitment)
    ensures
        final(out)@ == old(out)@ + commitment_enc(*c),
{
    append_u64(out, c.w0);
    append_u64(out, c.w1);
    append_u64(out, c.w2);
    append_u64(out, c.w3);
    assert(out@ =~= old(out)@ + commitment_enc(*c));
}

/// Append the little-endian encoding of a 64-bit value to a byte string.
pub fn append_u64(out: &mut Vec<u8>, x: u64)
    ensures
        final(out)@ == old(out)@ + vstd::bytes::spec_u64_to_le_bytes(x),
{
    let mut b = vstd::bytes::u64_to_le_bytes(x);
    out.append(&mut b);
}

/// Append the little-endian encoding of a 32-bit value to a byte string.
pub fn append_u32(out: &mut Vec<u8>, x: u32)
    ensures
        final(out)@ == old(out)@ + vstd::bytes::spec_u32_to_le_bytes(x),
{
    let mut b = vstd::bytes::u32_to_le_bytes(x);
    out.append(&mut b);
}

/// Append the little-endian encoding of a 128-bit value to a byte string.
pub fn append_u128(out: &mut Vec<u8>, x: u128)
    ensures
        final(out)@ == old(out)@ + vstd::bytes::spec_u128_to_le_bytes(x),
{
    let mut b = vstd::bytes::u128_to_le_bytes(x);
    out.append(&mut b);
}

} // verus!
