//! A layer-2 rollup ledger: an account state machine fed by an ordered stream
//! of transaction batches, committing attestations of its state transitions to
//! a settlement chain.
//!
//! The crate holds the state-transition engine and the batch-execution /
//! settlement pipeline: the account ledger ([`state`]), per-block transaction
//! application, proof-chain aggregation ([`prover`]), the canonical
//! transaction codec ([`transaction`]), and the executor control loop's
//! decision machine ([`executor`]). Network plumbing around these lives
//! outside the library.

use vstd::prelude::*;

pub mod accounts;
pub mod address;
pub mod commitment;
pub mod crypto;
pub mod block;
pub mod error;
pub mod executor;
pub mod prover;
pub mod state;
pub mod transaction;

verus! {

/// Identifies one rollup instance: its namespace id within the shared
/// sequencing service. Distinct ids run independent ledgers.
#[derive(Clone, Copy, Debug, PartialEq, Eq, Structural)]
pub struct RollupVM(pub u64);

impl RollupVM {
    /// Wrap a namespace id.
    pub fn new(id: u64) -> (r: Self)
        ensures
            r.0 == id,
    {
        RollupVM(id)
    }

    /// The namespace id of this rollup instance.
    pub fn id(&self) -> (r: u64)
        ensures
            r == self.0,
    {
        self.0
    }
}

} // verus!
