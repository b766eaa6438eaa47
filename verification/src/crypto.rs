//! Cryptographic primitives the ledger relies on: the digest behind state
//! commitments, and the ECDSA operations behind transaction signatures.
//!
//! Each outside call stands behind a trusted wrapper. What a call returns (a
//! SHA-256 digest, a secp256k1 signature) would take pages to state, so each
//! result is given a name by an uninterpreted spec function; every wrapper is
//! deterministic, a function of its arguments alone, which justifies naming.

use vstd::prelude::*;

verus! {

/// The SHA-256 digest of a byte string: a function of the input alone.
pub uninterp spec fn sha256_of(data: Seq<u8>) -> Seq<u8>;

/// The recoverable ECDSA signature (secp256k1, deterministic per RFC 6979,
/// over the SHA-256 digest of the message) of `msg` under the secret key
/// `key`: 65 bytes (r, s, recovery id), or `None` for an invalid key.
pub uninterp spec fn ecdsa_sign_of(key: Seq<u8>, msg: Seq<u8>) -> Option<Seq<u8>>;

/// The compressed SEC1 public key recovered from a 65-byte recoverable ECDSA
/// signature over `msg`, or `None` when recovery fails.
pub uninterp spec fn ecdsa_recover_of(msg: Seq<u8>, sig: Seq<u8>) -> Option<Seq<u8>>;

/// The compressed SEC1 public key belonging to the secret key `key`, or
/// `None` for an invalid key.
pub uninterp spec fn secp_pubkey_of(key: Seq<u8>) -> Option<Seq<u8>>;

/// Relies on sha2's `Sha256`: returns the SHA-256 digest of the input, which
/// is 32 bytes and depends on the input alone.
#[verifier::external_body]
pub fn sha256(data: &Vec<u8>) -> (r: Vec<u8>)
    ensures
        r@ == sha256_of(data@),
        r@.len() == 32,
{
    <sha2::Sha256 as sha2::Digest>::digest(data.as_slice()).to_vec()
}

/// Relies on k256's ECDSA: `SigningKey::from_slice` accepts exactly the valid
/// 32-byte secret keys, and `try_sign` computes the deterministic RFC 6979
/// recoverable signature (64 signature bytes plus one recovery-id byte).
#[verifier::external_body]
pub fn ecdsa_sign(key: &Vec<u8>, msg: &Vec<u8>) -> (r: Option<Vec<u8>>)
    ensures
        (r is Some) == (ecdsa_sign_of(key@, msg@) is Some),
        r is Some ==> r->0@ == ecdsa_sign_of(key@, msg@)->0 && r->0@.len() == 65,
{
    let signing_key = k256::ecdsa::SigningKey::from_slice(key.as_slice()).ok()?;
    let (sig, recid): (k256::ecdsa::Signature, k256::ecdsa::RecoveryId) =
        k256::ecdsa::signature::Signer::try_sign(&signing_key, msg.as_slice()).ok()?;
    let mut bytes = sig.to_bytes().to_vec();
    bytes.push(recid.to_byte());
    Some(bytes)
}

/// Relies on k256's ECDSA public-key recovery: `VerifyingKey::recover_from_msg`
/// recovers the signer's public key from the message and the 65-byte
/// signature, deterministically; the compressed SEC1 encoding is 33 bytes.
#[verifier::external_body]
pub fn ecdsa_recover(msg: &Vec<u8>, sig: &Vec<u8>) -> (r: Option<Vec<u8>>)
    requires
        sig@.len() == 65,
    ensures
        (r is Some) == (ecdsa_recover_of(msg@, sig@) is Some),
        r is Some ==> r->0@ == ecdsa_recover_of(msg@, sig@)->0 && r->0@.len() == 33,
{
    let signature = k256::ecdsa::Signature::from_slice(&sig.as_slice()[..64]).ok()?;
    let recid = k256::ecdsa::RecoveryId::from_byte(sig.as_slice()[64])?;
    let key = k256::ecdsa::VerifyingKey::recover_from_msg(msg.as_slice(), &signature, recid)
        .ok()?;
    Some(key.to_sec1_point(true).as_bytes().to_vec())
}

/// Relies on k256: `SigningKey::from_slice` accepts exactly the valid 32-byte
/// secret keys, and `verifying_key` derives the matching public key, whose
/// compressed SEC1 encoding is 33 bytes.
#[verifier::external_body]
pub fn secp_pubkey(key: &Vec<u8>) -> (r: Option<Vec<u8>>)
    ensures
        (r is Some) == (secp_pubkey_of(key@) is Some),
        r is Some ==> r->0@ == secp_pubkey_of(key@)->0 && r->0@.len() == 33,
{
    let signing_key = k256::ecdsa::SigningKey::from_slice(key.as_slice()).ok()?;
    Some(signing_key.verifying_key().to_sec1_point(true).as_bytes().to_vec())
}

} // verus!
