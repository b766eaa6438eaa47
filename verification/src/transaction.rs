//! Transactions, their canonical byte encoding, and signatures.
//!
//! The canonical encoding is what gets signed and what stands in a block's
//! namespace as this rollup's data, so encoding and decoding are exact
//! inverses (proved below).

use vstd::prelude::*;
use vstd::bytes::{
    spec_u128_to_le_bytes, spec_u128_from_le_bytes, spec_u32_to_le_bytes, spec_u32_from_le_bytes,
    spec_u64_to_le_bytes, spec_u64_from_le_bytes, u128_from_le_bytes, u32_from_le_bytes,
    u64_from_le_bytes, lemma_auto_spec_u128_to_from_le_bytes, lemma_auto_spec_u32_to_from_le_bytes,
    lemma_auto_spec_u64_to_from_le_bytes,
};
use vstd::slice::slice_subrange;
use crate::address::Address;
use crate::commitment::{append_u32, append_u64, append_u128};
use crate::crypto::{ecdsa_recover, ecdsa_recover_of, ecdsa_sign, ecdsa_sign_of, secp_pubkey,
    secp_pubkey_of, sha256, sha256_of};
use crate::error::RollupError;

verus! {

/// A transfer: `amount` moves to `destination`; `nonce` must be one more
/// than the sender's current nonce, which protects against replay.
#[derive(Clone, Copy, Debug, PartialEq, Eq, Structural)]
pub struct Transaction {
    pub amount: u64,
    pub destination: Address,
    pub nonce: u64,
}

/// A recoverable ECDSA signature over a transaction's canonical encoding:
/// 64 signature bytes held as four 128-bit words, plus the recovery id.
/// The signer's address is not stored; it is recovered from the signature.
#[derive(Clone, Copy, Debug, PartialEq, Eq, Structural)]
pub struct Signature {
    pub w0: u128,
    pub w1: u128,
    pub w2: u128,
    pub w3: u128,
    pub v: u8,
}

/// A transaction together with the signature that authenticates it.
#[derive(Clone, Copy, Debug, PartialEq, Eq, Structural)]
pub struct SignedTransaction {
    pub transaction: Transaction,
    pub signature: Signature,
}

/// The 36-byte canonical encoding of a transaction: amount, destination
/// (high then low part), nonce, each little-endian.
pub open spec fn tx_enc(t: Transaction) -> Seq<u8> {
    spec_u64_to_le_bytes(t.amount) + spec_u32_to_le_bytes(t.destination.hi)
        + spec_u128_to_le_bytes(t.destination.lo) + spec_u64_to_le_bytes(t.nonce)
}

/// The transaction a 36-byte string decodes to; `None` for any other length.
pub open spec fn tx_dec(bytes: Seq<u8>) -> Option<Transaction> {
    if bytes.len() == 36 {
        Some(
            Transaction {
                amount: spec_u64_from_le_bytes(bytes.subrange(0, 8)),
                destination: Address {
                    hi: spec_u32_from_le_bytes(bytes.subrange(8, 12)),
                    lo: spec_u128_from_le_bytes(bytes.subrange(12, 28)),
                },
                nonce: spec_u64_from_le_bytes(bytes.subrange(28, 36)),
            },
        )
    } else {
        None
    }
}

/// The 65-byte canonical encoding of a signature: the four words
/// little-endian, then the recovery id.
pub open spec fn sig_enc(s: Signature) -> Seq<u8> {
    spec_u128_to_le_bytes(s.w0) + spec_u128_to_le_bytes(s.w1) + spec_u128_to_le_bytes(s.w2)
        + spec_u128_to_le_bytes(s.w3) + seq![s.v]
}

/// The signature a 65-byte string decodes to; `None` for any other length.
pub open spec fn sig_dec(bytes: Seq<u8>) -> Option<Signature> {
    if bytes.len() == 65 {
        Some(
            Signature {
                w0: spec_u128_from_le_bytes(bytes.subrange(0, 16)),
                w1: spec_u128_from_le_bytes(bytes.subrange(16, 32)),
                w2: spec_u128_from_le_bytes(bytes.subrange(32, 48)),
                w3: spec_u128_from_le_bytes(bytes.subrange(48, 64)),
                v: bytes[64],
            },
        )
    } else {
        None
    }
}

/// The 101-byte canonical encoding of a signed transaction.
pub open spec fn stx_enc(s: SignedTransaction) -> Seq<u8> {
    tx_enc(s.transaction) + sig_enc(s.signature)
}

/// The signed transaction a 101-byte string decodes to.
pub open spec fn stx_dec(bytes: Seq<u8>) -> Option<SignedTransaction> {
    if bytes.len() == 101 {
        Some(
            SignedTransaction {
                transaction: tx_dec(bytes.subrange(0, 36))->0,
                signature: sig_dec(bytes.subrange(36, 101))->0,
            },
        )
    } else {
        None
    }
}

/// The address belonging to a compressed SEC1 public key: the last twenty
/// bytes of the key's SHA-256 digest.
pub open spec fn address_of_pubkey(pk: Seq<u8>) -> Address {
    Address {
        hi: spec_u32_from_le_bytes(sha256_of(pk).subrange(12, 16)),
        lo: spec_u128_from_le_bytes(sha256_of(pk).subrange(16, 32)),
    }
}

/// The signer's address recovered from a signed transaction, or `None` when
/// recovery fails. A function of the signed transaction alone.
pub open spec fn recover_spec(s: SignedTransaction) -> Option<Address> {
    match ecdsa_recover_of(tx_enc(s.transaction), sig_enc(s.signature)) {
        Some(pk) => Some(address_of_pubkey(pk)),
        None => None,
    }
}

impl Transaction {
    /// Serialize to the canonical byte encoding.
    pub fn encode(&self) -> (r: Vec<u8>)
        ensures
            r@ == tx_enc(*self),
    {
        let mut out: Vec<u8> = Vec::new();
        append_u64(&mut out, self.amount);
        append_u32(&mut out, self.destination.hi);
        append_u128(&mut out, self.destination.lo);
        append_u64(&mut out, self.nonce);
        assert(out@ =~= tx_enc(*self));
        out
    }

    /// Deserialize from the canonical byte encoding; `None` if malformed.
    pub fn decode(bytes: &[u8]) -> (r: Option<Transaction>)
        ensures
            r == tx_dec(bytes@),
    {
        if bytes.len() != 36 {
            return None;
        }
        let amount = u64_from_le_bytes(slice_subrange(bytes, 0, 8));
        let hi = u32_from_le_bytes(slice_subrange(bytes, 8, 12));
        let lo = u128_from_le_bytes(slice_subrange(bytes, 12, 28));
        let nonce = u64_from_le_bytes(slice_subrange(bytes, 28, 36));
        Some(Transaction { amount, destination: Address { hi, lo }, nonce })
    }
}

/// Encoding then decoding a transaction yields the original, and any byte
/// string that decodes re-encodes to itself: the codec is a bijection
/// between transactions and 36-byte strings.
pub proof fn lemma_tx_round_trip(t: Transaction, bytes: Seq<u8>)
    ensures
        tx_dec(tx_enc(t)) == Some(t),
        tx_dec(bytes) is Some ==> tx_enc(tx_dec(bytes)->0) == bytes,
{
    lemma_auto_spec_u64_to_from_le_bytes();
    lemma_auto_spec_u32_to_from_le_bytes();
    lemma_auto_spec_u128_to_from_le_bytes();
    let e = tx_enc(t);
    assert(e.subrange(0, 8) =~= spec_u64_to_le_bytes(t.amount));
    assert(e.subrange(8, 12) =~= spec_u32_to_le_bytes(t.destination.hi));
    assert(e.subrange(12, 28) =~= spec_u128_to_le_bytes(t.destination.lo));
    assert(e.subrange(28, 36) =~= spec_u64_to_le_bytes(t.nonce));
    if tx_dec(bytes) is Some {
        let d = tx_dec(bytes)->0;
        assert(tx_enc(d) =~= bytes);
    }
}

/// As `lemma_tx_round_trip`, for signatures.
pub proof fn lemma_sig_round_trip(s: Signature, bytes: Seq<u8>)
    ensures
        sig_dec(sig_enc(s)) == Some(s),
        sig_dec(bytes) is Some ==> sig_enc(sig_dec(bytes)->0) == bytes,
{
    lemma_auto_spec_u128_to_from_le_bytes();
    let e = sig_enc(s);
    assert(e.subrange(0, 16) =~= spec_u128_to_le_bytes(s.w0));
    assert(e.subrange(16, 32) =~= spec_u128_to_le_bytes(s.w1));
    assert(e.subrange(32, 48) =~= spec_u128_to_le_bytes(s.w2));
    assert(e.subrange(48, 64) =~= spec_u128_to_le_bytes(s.w3));
    assert(e[64] == s.v);
    if sig_dec(bytes) is Some {
        let d = sig_dec(bytes)->0;
        assert(sig_enc(d) =~= bytes);
    }
}

/// Encoding then decoding a signed transaction yields the original, and any
/// byte string that decodes re-encodes to itself.
pub proof fn lemma_stx_round_trip(s: SignedTransaction, bytes: Seq<u8>)
    ensures
        stx_dec(stx_enc(s)) == Some(s),
        stx_dec(bytes) is Some ==> stx_enc(stx_dec(bytes)->0) == bytes,
{
    lemma_auto_spec_u64_to_from_le_bytes();
    lemma_auto_spec_u32_to_from_le_bytes();
    lemma_auto_spec_u128_to_from_le_bytes();
    let e = stx_enc(s);
    assert(e.subrange(0, 36) =~= tx_enc(s.transaction));
    assert(e.subrange(36, 101) =~= sig_enc(s.signature));
    lemma_tx_round_trip(s.transaction, e.subrange(0, 36));
    lemma_sig_round_trip(s.signature, e.subrange(36, 101));
    if stx_dec(bytes) is Some {
        let d = stx_dec(bytes)->0;
        lemma_tx_round_trip(d.transaction, bytes.subrange(0, 36));
        lemma_sig_round_trip(d.signature, bytes.subrange(36, 101));
        assert(stx_enc(d) =~= bytes);
    }
}

/// Rebuild a signature from its 65-byte encoding.
fn sig_from_bytes(bytes: &Vec<u8>) -> (r: Signature)
    requires
        bytes@.len() == 65,
    ensures
        Some(r) == sig_dec(bytes@),
        sig_enc(r) == bytes@,
    {
        let w0 = u128_from_le_bytes(slice_subrange(bytes.as_slice(), 0, 16));
        let w1 = u128_from_le_bytes(slice_subrange(bytes.as_slice(), 16, 32));
        let w2 = u128_from_le_bytes(slice_subrange(bytes.as_slice(), 32, 48));
        let w3 = u128_from_le_bytes(slice_subrange(bytes.as_slice(), 48, 64));
        let v = bytes[64];
        let r = Signature { w0, w1, w2, w3, v };
        proof {
            lemma_sig_round_trip(r, bytes@);
        }
        r
    }

/// Serialize a signature to its 65-byte encoding.
fn sig_to_bytes(s: &Signature) -> (r: Vec<u8>)
    ensures
        r@ == sig_enc(*s),
        r@.len() == 65,
{
    proof {
        lemma_auto_spec_u128_to_from_le_bytes();
    }
    let mut out: Vec<u8> = Vec::new();
    append_u128(&mut out, s.w0);
    append_u128(&mut out, s.w1);
    append_u128(&mut out, s.w2);
    append_u128(&mut out, s.w3);
    out.push(s.v);
    assert(out@ =~= sig_enc(*s));
    out
}

impl SignedTransaction {
    /// Serialize to the canonical byte encoding.
    pub fn encode(&self) -> (r: Vec<u8>)
        ensures
            r@ == stx_enc(*self),
    {
        let mut out = self.transaction.encode();
        let mut sig = sig_to_bytes(&self.signature);
        out.append(&mut sig);
        out
    }

    /// Deserialize from the canonical byte encoding; `None` if malformed.
    pub fn decode(bytes: &[u8]) -> (r: Option<SignedTransaction>)
        ensures
            r == stx_dec(bytes@),
    {
        if bytes.len() != 101 {
            return None;
        }
        let transaction = match Transaction::decode(slice_subrange(bytes, 0, 36)) {
            Some(t) => t,
            None => { return None; },
        };
        let sig_bytes = slice_subrange(bytes, 36, 101);
        let w0 = u128_from_le_bytes(slice_subrange(sig_bytes, 0, 16));
        let w1 = u128_from_le_bytes(slice_subrange(sig_bytes, 16, 32));
        let w2 = u128_from_le_bytes(slice_subrange(sig_bytes, 32, 48));
        let w3 = u128_from_le_bytes(slice_subrange(sig_bytes, 48, 64));
        let v = sig_bytes[64];
        let signature = Signature { w0, w1, w2, w3, v };
        Some(SignedTransaction { transaction, signature })
    }

    /// Recover the sender's address from the signature over the canonical
    /// encoding; fails exactly when key recovery fails.
    pub fn recover(&self) -> (r: Result<Address, RollupError>)
        ensures
            (match r {
                Ok(a) => recover_spec(*self) == Some(a),
                Err(e) => recover_spec(*self) is None && e == RollupError::SignatureError,
            }),
    {
        let msg = self.transaction.encode();
        let sig = sig_to_bytes(&self.signature);
        match ecdsa_recover(&msg, &sig) {
            Some(pk) => {
                let d = sha256(&pk);
                let hi = u32_from_le_bytes(slice_subrange(d.as_slice(), 12, 16));
                let lo = u128_from_le_bytes(slice_subrange(d.as_slice(), 16, 32));
                Ok(Address { hi, lo })
            },
            None => Err(RollupError::SignatureError),
        }
    }

    /// Sign a transaction's canonical encoding with a 32-byte secret key;
    /// `None` exactly when the key is invalid.
    pub fn new(transaction: Transaction, key: &Vec<u8>) -> (r: Option<SignedTransaction>)
        ensures
            (match r {
                Some(s) => {
                    &&& ecdsa_sign_of(key@, tx_enc(transaction)) == Some(sig_enc(s.signature))
                    &&& s.transaction == transaction
                },
                None => ecdsa_sign_of(key@, tx_enc(transaction)) is None,
            }),
    {
        let msg = transaction.encode();
        match ecdsa_sign(key, &msg) {
            Some(sig_bytes) => {
                let signature = sig_from_bytes(&sig_bytes);
                Some(SignedTransaction { transaction, signature })
            },
            None => None,
        }
    }
}

/// The address belonging to a 32-byte secret key, derived through the
/// matching public key; `None` exactly when the key is invalid.
pub fn address_of_key(key: &Vec<u8>) -> (r: Option<Address>)
    ensures
        (match r {
            Some(a) => secp_pubkey_of(key@) is Some && a == address_of_pubkey(
                secp_pubkey_of(key@)->0,
            ),
            None => secp_pubkey_of(key@) is None,
        }),
{
    match secp_pubkey(key) {
        Some(pk) => {
            let d = sha256(&pk);
            let hi = u32_from_le_bytes(slice_subrange(d.as_slice(), 12, 16));
            let lo = u128_from_le_bytes(slice_subrange(d.as_slice(), 16, 32));
            Some(Address { hi, lo })
        },
        None => None,
    }
}

} // verus!
