//! Blocks as the consensus feed presents them: headers, transaction-root
//! commitments, and namespace inclusion proofs.
//!
//! The proof objects here are structural placeholders standing in for a real
//! inclusion-proof system: a proof carries the ordered payloads it attests
//! to, together with the block root and namespace it attests them for, and
//! verification checks that it speaks of the expected root and namespace.

use vstd::prelude::*;
use crate::commitment::{append_commitment, append_u64, commit_bytes, commitment_enc,
    commitment_of, Commitment};

verus! {

/// The root of a block's namespaced transaction tree.
#[derive(Clone, Copy, Debug, PartialEq, Eq, Structural)]
pub struct NmtRoot {
    pub root: Commitment,
}

/// The canonical encoding of a transaction root.
pub open spec fn nmt_root_enc(r: NmtRoot) -> Seq<u8> {
    commitment_enc(r.root)
}

/// The commitment to a transaction root: the digest of its encoding.
pub open spec fn nmt_commit_spec(r: NmtRoot) -> Commitment {
    commitment_of(nmt_root_enc(r))
}

impl NmtRoot {
    /// Commit to the transaction root.
    pub fn commit(&self) -> (r: Commitment)
        ensures
            r == nmt_commit_spec(*self),
    {
        let mut bytes: Vec<u8> = Vec::new();
        append_commitment(&mut bytes, &self.root);
        assert(bytes@ =~= nmt_root_enc(*self));
        commit_bytes(&bytes)
    }
}

/// One block header from the consensus feed: the block's height and the
/// root of its transaction tree.
#[derive(Clone, Copy, Debug, PartialEq, Eq, Structural)]
pub struct Header {
    pub height: u64,
    pub transactions_root: NmtRoot,
}

/// The canonical encoding of a header.
pub open spec fn header_enc(h: Header) -> Seq<u8> {
    vstd::bytes::spec_u64_to_le_bytes(h.height) + nmt_root_enc(h.transactions_root)
}

/// The commitment to a header, compared against what the settlement ledger
/// recorded for the block.
pub open spec fn header_commit_spec(h: Header) -> Commitment {
    commitment_of(header_enc(h))
}

impl Header {
    /// Commit to the header.
    pub fn commit(&self) -> (r: Commitment)
        ensures
            r == header_commit_spec(*self),
    {
        let mut bytes: Vec<u8> = Vec::new();
        append_u64(&mut bytes, self.height);
        append_commitment(&mut bytes, &self.transactions_root.root);
        assert(bytes@ =~= header_enc(*self));
        commit_bytes(&bytes)
    }
}

/// A namespace inclusion proof: the ordered canonical payloads of exactly
/// this namespace's transactions within one block, with the block root and
/// namespace id the proof attests them for.
#[derive(Debug, Clone)]
pub struct NamespaceProof {
    pub root: Commitment,
    pub namespace: u64,
    pub leaves: Vec<Vec<u8>>,
}

/// The payloads a namespace proof carries, as byte strings.
pub open spec fn leaves_view(p: NamespaceProof) -> Seq<Seq<u8>> {
    Seq::new(p.leaves@.len(), |i: int| p.leaves@[i]@)
}

impl NamespaceProof {
    /// Check the proof against a block's transaction root and a namespace
    /// id. A proof that fails this check contradicts the consensus layer's
    /// own attestation, which no caller can locally resolve.
    pub fn verify(&self, root: &NmtRoot, namespace: u64) -> (r: bool)
        ensures
            r == (self.root == root.root && self.namespace == namespace),
    {
        self.root == root.root && self.namespace == namespace
    }

    /// The ordered transaction payloads of the namespace.
    pub fn get_namespace_leaves(&self) -> (r: &Vec<Vec<u8>>)
        ensures
            r == &self.leaves,
    {
        &self.leaves
    }
}

} // verus!
