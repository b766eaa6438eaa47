//! Per-block proofs and their aggregation over a contiguous block range.
//!
//! A proof here is a structural commitment chaining old and new state, not a
//! cryptographically sound validity proof; a production system would
//! substitute a real proof system at this boundary.

use vstd::prelude::*;
use crate::RollupVM;
use crate::block::{nmt_commit_spec, NamespaceProof, NmtRoot};
use crate::commitment::Commitment;

verus! {

/// An error from aggregating per-block proofs.
#[derive(Clone, Copy, Debug, PartialEq, Eq, Structural)]
pub enum ProofError {
    /// Adjacent proofs do not chain: the proof at `position` ends in
    /// `new_state`, but the next proof starts in `old_state`.
    OutOfOrder { position: usize, new_state: Commitment, old_state: Commitment },
}

/// A proof that applying one block's transactions moves the ledger from
/// `old_state` to `new_state`; `block` commits to the block's transaction
/// root.
#[derive(Clone, Copy, Debug, PartialEq, Eq, Structural)]
pub struct Proof {
    pub block: Commitment,
    pub old_state: Commitment,
    pub new_state: Commitment,
}

impl Proof {
    /// Generate the proof for one block, first verifying the namespace
    /// inclusion proof against the block root and the rollup's namespace
    /// id. `None` means the verification failed: the consensus layer handed
    /// the rollup data that does not match its own attested root, a
    /// protocol-level contradiction that is fatal for the caller.
    pub fn generate(
        nmt_root: &NmtRoot,
        state_commitment: Commitment,
        previous_state_commitment: Commitment,
        namespace_proof: &NamespaceProof,
        vm: &RollupVM,
    ) -> (r: Option<Proof>)
        ensures
            (match r {
                Some(p) => namespace_proof.root == nmt_root.root && namespace_proof.namespace
                    == vm.0 && p == (Proof {
                    block: nmt_commit_spec(*nmt_root),
                    old_state: previous_state_commitment,
                    new_state: state_commitment,
                }),
                None => !(namespace_proof.root == nmt_root.root && namespace_proof.namespace
                    == vm.0),
            }),
    {
        if !namespace_proof.verify(nmt_root, vm.0) {
            return None;
        }
        Some(
            Proof {
                block: nmt_root.commit(),
                old_state: previous_state_commitment,
                new_state: state_commitment,
            },
        )
    }
}

/// A proof aggregating a contiguous range of per-block proofs: the range's
/// first and last block commitments, and the states the range starts and
/// ends in.
#[derive(Clone, Copy, Debug, PartialEq, Eq, Structural)]
pub struct BatchProof {
    pub first_block: Commitment,
    pub last_block: Commitment,
    pub old_state: Commitment,
    pub new_state: Commitment,
}

/// The proofs chain: each proof starts in the state the previous ended in.
pub open spec fn chained(s: Seq<Proof>) -> bool {
    forall|i: int|
        0 <= i < s.len() - 1 ==> (#[trigger] s[i]).new_state == s[i + 1].old_state
}

impl BatchProof {
    /// Aggregate a non-empty run of per-block proofs. Succeeds exactly when
    /// every adjacent pair chains; the first violation yields `OutOfOrder`
    /// naming its index and the two mismatched commitments. On success the
    /// batch spans the first proof's block and old state to the last
    /// proof's block and new state.
    pub fn generate(proofs: &Vec<Proof>) -> (r: Result<BatchProof, ProofError>)
        requires
            proofs@.len() >= 1,
        ensures
            (match r {
                Ok(b) => chained(proofs@) && b == (BatchProof {
                    first_block: proofs@[0].block,
                    last_block: proofs@.last().block,
                    old_state: proofs@[0].old_state,
                    new_state: proofs@.last().new_state,
                }),
                Err(e) => ({
                    &&& !chained(proofs@)
                    &&& e matches ProofError::OutOfOrder { position, new_state, old_state }
                        && 0 <= position < proofs@.len() - 1
                        && proofs@[position as int].new_state != proofs@[
                            position as int + 1
                        ].old_state
                        && (forall|j: int|
                            0 <= j < position ==> (#[trigger] proofs@[j]).new_state == proofs@[
                                j + 1
                            ].old_state)
                        && new_state == proofs@[position as int].new_state
                        && old_state == proofs@[position as int + 1].old_state
                }),
            }),
    {
        let mut i: usize = 0;
        while i < proofs.len() - 1
            invariant
                proofs@.len() >= 1,
                i <= proofs@.len() - 1,
                forall|j: int|
                    0 <= j < i ==> (#[trigger] proofs@[j]).new_state == proofs@[j + 1].old_state,
            decreases proofs@.len() - i,
        {
            if proofs[i].new_state != proofs[i + 1].old_state {
                return Err(
                    ProofError::OutOfOrder {
                        position: i,
                        new_state: proofs[i].new_state,
                        old_state: proofs[i + 1].old_state,
                    },
                );
            }
            i += 1;
        }
        Ok(
            BatchProof {
                first_block: proofs[0].block,
                last_block: proofs[proofs.len() - 1].block,
                old_state: proofs[0].old_state,
                new_state: proofs[proofs.len() - 1].new_state,
            },
        )
    }
}

} // verus!
