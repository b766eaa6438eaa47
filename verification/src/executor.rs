//! The executor's decision machine: the state machine that bridges the
//! settlement-chain event stream and the consensus header feed.
//!
//! The machine holds the ledger and a phase; each call to [`Executor::step`]
//! consumes one input (an event, a header, a fetched commitment, a fetched
//! namespace proof, or a submission outcome) and returns the one action the
//! runner must perform next. The runner around it does the waiting, the
//! fetching, the submitting and the retry delay; every decision — which
//! block to fetch, whether a fault is fatal, what batch to submit — is made
//! here.
//!
//! The cycle: awaiting a range event, collecting exactly `num_blocks`
//! headers in order, applying each block (recorded commitment checked
//! against the header, then the namespace proof fetched and executed), then
//! submitting the aggregated batch until the settlement chain accepts it.

use vstd::prelude::*;
use crate::block::{header_commit_spec, leaves_view, nmt_commit_spec, Header, NamespaceProof};
use crate::commitment::Commitment;
use crate::accounts::sum_balances;
use crate::prover::{chained, BatchProof, Proof, ProofError};
use crate::state::{apply_leaves_spec, commit_spec, State};

verus! {

/// A settlement-chain event announcing a newly committed block range.
#[derive(Clone, Copy, Debug, PartialEq, Eq, Structural)]
pub struct RangeEvent {
    pub first_block: u64,
    pub num_blocks: u64,
}

/// A fatal fault: the chain of custody linking consensus, rollup execution
/// and settlement has broken. The executor stops rather than proceed on
/// unverified data; recovery means replaying from a trusted checkpoint.
#[derive(Clone, Copy, Debug, PartialEq, Eq, Structural)]
pub enum FatalFault {
    /// The namespace proof for `block` did not verify against the block's
    /// own transaction root and this rollup's namespace id.
    NamespaceProofInvalid { block: u64 },
    /// The settlement ledger's recorded commitment for `block` disagrees
    /// with the commitment of the header the consensus feed served.
    CommitmentMismatch { block: u64, recorded: Commitment, header: Commitment },
    /// The runner fed the machine an input its current phase cannot accept.
    ProtocolViolation,
}

/// Where the machine stands in its cycle.
#[derive(Debug)]
pub enum Phase {
    /// Blocked on the settlement-chain event stream.
    AwaitingRangeEvent,
    /// Pulling headers, in order, until the announced range is covered.
    CollectingHeaders { first_block: u64, num_blocks: u64, headers: Vec<Header> },
    /// Applying block `index` of the range: waiting for the settlement
    /// ledger's recorded commitment for it.
    AwaitingCommitment {
        first_block: u64,
        num_blocks: u64,
        headers: Vec<Header>,
        proofs: Vec<Proof>,
        index: u64,
    },
    /// Applying block `index` of the range: the recorded commitment
    /// matched; waiting for the block's namespace proof.
    AwaitingNamespaceProof {
        first_block: u64,
        num_blocks: u64,
        headers: Vec<Header>,
        proofs: Vec<Proof>,
        index: u64,
    },
    /// Submitting the aggregated batch until the settlement chain accepts
    /// it; the machine does not advance past an unaccepted batch.
    SubmittingBatch { num_blocks: u64, state_commitment: Commitment, batch: BatchProof },
    /// Stopped on a fatal fault.
    Halted { fault: FatalFault },
}

/// One input to the machine.
#[derive(Debug)]
pub enum ExecutorEvent {
    /// The next settlement event; `None` stands for a malformed event,
    /// which is skipped.
    Range { event: Option<RangeEvent> },
    /// The next header from the consensus stream.
    Header { header: Header },
    /// The settlement ledger's recorded commitment for the block asked for.
    RecordedCommitment { commitment: Commitment },
    /// The namespace proof asked for.
    InclusionProof { proof: NamespaceProof },
    /// Whether the settlement chain accepted the submitted batch.
    Submitted { accepted: bool },
}

/// The one action the runner must perform next.
#[derive(Clone, Copy, Debug, PartialEq, Eq, Structural)]
pub enum ExecutorAction {
    /// Block on the settlement-chain event stream.
    AwaitRangeEvent,
    /// Pull the next header from the consensus stream.
    PullHeader,
    /// Read the settlement ledger's recorded commitment for `block`.
    FetchCommitment { block: u64 },
    /// Fetch the namespace proof for `block` and `namespace`.
    FetchProof { block: u64, namespace: u64 },
    /// Submit the batch to the settlement ledger; on failure, retry after a
    /// fixed delay by handing back `Submitted { accepted: false }`.
    Submit { num_blocks: u64, state_commitment: Commitment, batch: BatchProof },
    /// Stop: a protocol invariant broke and no local recovery is defined.
    Halt { fault: FatalFault },
}

/// The executor: the ledger it owns and the phase it stands in.
pub struct Executor {
    ledger: State,
    phase: Phase,
}

impl Executor {
    /// The ledger.
    pub closed spec fn ledger_spec(self) -> State {
        self.ledger
    }

    /// The phase.
    pub closed spec fn phase_spec(self) -> Phase {
        self.phase
    }

    /// The machine's invariant. In the block-application phases the proofs
    /// produced so far chain, and the last one ends in the ledger's current
    /// commitment — which is why the final aggregation cannot fail.
    pub open spec fn wf(self) -> bool {
        &&& self.ledger_spec().wf()
        &&& match self.phase_spec() {
            Phase::AwaitingRangeEvent => true,
            Phase::CollectingHeaders { first_block, num_blocks, headers } => {
                &&& num_blocks >= 1
                &&& first_block + num_blocks - 1 <= u64::MAX
                &&& headers@.len() < num_blocks
            },
            Phase::AwaitingCommitment { first_block, num_blocks, headers, proofs, index }
                | Phase::AwaitingNamespaceProof {
                first_block,
                num_blocks,
                headers,
                proofs,
                index,
            } => {
                &&& num_blocks >= 1
                &&& first_block + num_blocks - 1 <= u64::MAX
                &&& headers@.len() == num_blocks
                &&& index < num_blocks
                &&& proofs@.len() == index
                &&& chained(proofs@)
                &&& index > 0 ==> proofs@.last().new_state == commit_spec(self.ledger_spec())
            },
            Phase::SubmittingBatch { .. } => true,
            Phase::Halted { .. } => true,
        }
    }

    /// Start the machine over a ledger, awaiting the first range event.
    pub fn new(ledger: State) -> (r: Executor)
        requires
            ledger.wf(),
        ensures
            r.wf(),
            r.ledger_spec() == ledger,
            r.phase_spec() is AwaitingRangeEvent,
    {
        Executor { ledger, phase: Phase::AwaitingRangeEvent }
    }

    /// Read access to the ledger, for concurrent balance and nonce queries
    /// between block applications.
    pub fn ledger(&self) -> (r: &State)
        ensures
            *r == self.ledger_spec(),
    {
        &self.ledger
    }

    /// The phase the machine stands in.
    pub fn phase(&self) -> (r: &Phase)
        ensures
            *r == self.phase_spec(),
    {
        &self.phase
    }

    /// Feed the machine one input; it decides the next action. The match
    /// below is the executor loop of the design: recoverable, transient and
    /// fatal conditions are told apart exactly as the contract states.
    pub fn step(&mut self, event: ExecutorEvent) -> (action: ExecutorAction)
        requires
            old(self).wf(),
        ensures
            final(self).wf(),
            final(self).ledger_spec().vm_spec() == old(self).ledger_spec().vm_spec(),
            // Conservation: no step of the loop changes the total supply.
            sum_balances(final(self).ledger_spec().repr()) == sum_balances(
                old(self).ledger_spec().repr(),
            ),
            (match old(self).phase_spec() {
                Phase::AwaitingRangeEvent => (match event {
                    ExecutorEvent::Range { event: oe } => (match oe {
                        Some(e) => {
                            if e.num_blocks >= 1 && e.first_block + e.num_blocks - 1
                                <= u64::MAX {
                                &&& final(self).ledger_spec() == old(self).ledger_spec()
                                &&& final(self).phase_spec() matches Phase::CollectingHeaders {
                                    first_block,
                                    num_blocks,
                                    headers,
                                } && first_block == e.first_block && num_blocks == e.num_blocks
                                    && headers@ == Seq::<Header>::empty()
                                &&& action == ExecutorAction::PullHeader
                            } else {
                                // A zero-length or overflowing range is malformed: skip it.
                                &&& *final(self) == *old(self)
                                &&& action == ExecutorAction::AwaitRangeEvent
                            }
                        },
                        None => *final(self) == *old(self) && action
                            == ExecutorAction::AwaitRangeEvent,
                    }),
                    _ => step_violation(*old(self), *final(self), action),
                }),
                Phase::CollectingHeaders { first_block, num_blocks, headers } => (match event {
                    ExecutorEvent::Header { header } => {
                        if headers@.len() + 1 < num_blocks {
                            &&& final(self).ledger_spec() == old(self).ledger_spec()
                            &&& final(self).phase_spec() matches Phase::CollectingHeaders {
                                first_block: f2,
                                num_blocks: n2,
                                headers: h2,
                            } && f2 == first_block && n2 == num_blocks && h2@ == headers@.push(
                                header,
                            )
                            &&& action == ExecutorAction::PullHeader
                        } else {
                            &&& final(self).ledger_spec() == old(self).ledger_spec()
                            &&& final(self).phase_spec() matches Phase::AwaitingCommitment {
                                first_block: f2,
                                num_blocks: n2,
                                headers: h2,
                                proofs: p2,
                                index,
                            } && f2 == first_block && n2 == num_blocks && h2@ == headers@.push(
                                header,
                            ) && p2@ == Seq::<Proof>::empty() && index == 0
                            &&& action == (ExecutorAction::FetchCommitment { block: first_block })
                        }
                    },
                    _ => step_violation(*old(self), *final(self), action),
                }),
                Phase::AwaitingCommitment { first_block, num_blocks, headers, proofs, index } => (
                match event {
                    ExecutorEvent::RecordedCommitment { commitment } => {
                        let expected = header_commit_spec(headers@[index as int]);
                        let block = (first_block + index) as u64;
                        if commitment == expected {
                            &&& final(self).ledger_spec() == old(self).ledger_spec()
                            &&& final(self).phase_spec() matches Phase::AwaitingNamespaceProof {
                                first_block: f2,
                                num_blocks: n2,
                                headers: h2,
                                proofs: p2,
                                index: i2,
                            } && f2 == first_block && n2 == num_blocks && h2@ == headers@ && p2@
                                == proofs@ && i2 == index
                            &&& action == (ExecutorAction::FetchProof {
                                block,
                                namespace: old(self).ledger_spec().vm_spec().0,
                            })
                        } else {
                            let fault = FatalFault::CommitmentMismatch {
                                block,
                                recorded: commitment,
                                header: expected,
                            };
                            &&& final(self).ledger_spec() == old(self).ledger_spec()
                            &&& final(self).phase_spec() matches Phase::Halted { fault: f } && f
                                == fault
                            &&& action == (ExecutorAction::Halt { fault })
                        }
                    },
                    _ => step_violation(*old(self), *final(self), action),
                }),
                Phase::AwaitingNamespaceProof { first_block, num_blocks, headers, proofs, index }
                    => (match event {
                    ExecutorEvent::InclusionProof { proof } => {
                        let root = headers@[index as int].transactions_root;
                        let block = (first_block + index) as u64;
                        let pre = old(self).ledger_spec();
                        let post = final(self).ledger_spec();
                        let newp = Proof {
                            block: nmt_commit_spec(root),
                            old_state: commit_spec(pre),
                            new_state: commit_spec(post),
                        };
                        let ext = proofs@.push(newp);
                        &&& post.accounts_map() == apply_leaves_spec(
                            pre.accounts_map(),
                            leaves_view(proof),
                        )
                        &&& post.nmt_commitment() == Some(nmt_commit_spec(root))
                        &&& post.prev_commitment() == Some(commit_spec(pre))
                        &&& if proof.root == root.root && proof.namespace == pre.vm_spec().0 {
                            if index + 1 < num_blocks {
                                &&& final(self).phase_spec()
                                    matches Phase::AwaitingCommitment {
                                    first_block: f2,
                                    num_blocks: n2,
                                    headers: h2,
                                    proofs: p2,
                                    index: i2,
                                } && f2 == first_block && n2 == num_blocks && h2@ == headers@
                                    && p2@ == ext && i2 == index + 1
                                &&& action == (ExecutorAction::FetchCommitment {
                                    block: (block + 1) as u64,
                                })
                            } else {
                                &&& final(self).phase_spec() matches Phase::SubmittingBatch {
                                    num_blocks: n2,
                                    state_commitment,
                                    batch,
                                } && n2 == num_blocks && state_commitment == commit_spec(post)
                                    && batch == (BatchProof {
                                    first_block: ext[0].block,
                                    last_block: newp.block,
                                    old_state: ext[0].old_state,
                                    new_state: newp.new_state,
                                })
                                &&& action == (ExecutorAction::Submit {
                                    num_blocks,
                                    state_commitment: commit_spec(post),
                                    batch: BatchProof {
                                        first_block: ext[0].block,
                                        last_block: newp.block,
                                        old_state: ext[0].old_state,
                                        new_state: newp.new_state,
                                    },
                                })
                            }
                        } else {
                            let fault = FatalFault::NamespaceProofInvalid { block };
                            &&& final(self).phase_spec() matches Phase::Halted { fault: f } && f
                                == fault
                            &&& action == (ExecutorAction::Halt { fault })
                        }
                    },
                    _ => step_violation(*old(self), *final(self), action),
                }),
                Phase::SubmittingBatch { num_blocks, state_commitment, batch } => (match event {
                    ExecutorEvent::Submitted { accepted } => {
                        if accepted {
                            &&& final(self).ledger_spec() == old(self).ledger_spec()
                            &&& final(self).phase_spec() is AwaitingRangeEvent
                            &&& action == ExecutorAction::AwaitRangeEvent
                        } else {
                            // Transient: the same batch is submitted again,
                            // and the machine does not advance past it.
                            &&& *final(self) == *old(self)
                            &&& action == (ExecutorAction::Submit {
                                num_blocks,
                                state_commitment,
                                batch,
                            })
                        }
                    },
                    _ => step_violation(*old(self), *final(self), action),
                }),
                Phase::Halted { fault } => *final(self) == *old(self) && action
                    == (ExecutorAction::Halt { fault }),
            }),
    {
        let mut ph = Phase::AwaitingRangeEvent;
        core::mem::swap(&mut ph, &mut self.phase);
        match ph {
            Phase::AwaitingRangeEvent => {
                match event {
                    ExecutorEvent::Range { event: oe } => {
                        match oe {
                            Some(e) => {
                                if e.num_blocks >= 1 && e.first_block <= u64::MAX - (e.num_blocks
                                    - 1) {
                                    self.phase = Phase::CollectingHeaders {
                                        first_block: e.first_block,
                                        num_blocks: e.num_blocks,
                                        headers: Vec::new(),
                                    };
                                    ExecutorAction::PullHeader
                                } else {
                                    self.phase = Phase::AwaitingRangeEvent;
                                    ExecutorAction::AwaitRangeEvent
                                }
                            },
                            None => {
                                self.phase = Phase::AwaitingRangeEvent;
                                ExecutorAction::AwaitRangeEvent
                            },
                        }
                    },
                    _ => self.halt_violation(),
                }
            },
            Phase::CollectingHeaders { first_block, num_blocks, mut headers } => {
                match event {
                    ExecutorEvent::Header { header } => {
                        headers.push(header);
                        if (headers.len() as u64) < num_blocks {
                            self.phase = Phase::CollectingHeaders {
                                first_block,
                                num_blocks,
                                headers,
                            };
                            ExecutorAction::PullHeader
                        } else {
                            self.phase = Phase::AwaitingCommitment {
                                first_block,
                                num_blocks,
                                headers,
                                proofs: Vec::new(),
                                index: 0,
                            };
                            ExecutorAction::FetchCommitment { block: first_block }
                        }
                    },
                    _ => self.halt_violation(),
                }
            },
            Phase::AwaitingCommitment { first_block, num_blocks, headers, proofs, index } => {
                match event {
                    ExecutorEvent::RecordedCommitment { commitment } => {
                        let block = first_block + index;
                        let hlen = headers.len();
                        assert(index < hlen as u64);
                        let expected = headers[index as usize].commit();
                        if commitment == expected {
                            let namespace = self.ledger.vm().id();
                            self.phase = Phase::AwaitingNamespaceProof {
                                first_block,
                                num_blocks,
                                headers,
                                proofs,
                                index,
                            };
                            ExecutorAction::FetchProof { block, namespace }
                        } else {
                            let fault = FatalFault::CommitmentMismatch {
                                block,
                                recorded: commitment,
                                header: expected,
                            };
                            self.phase = Phase::Halted { fault };
                            ExecutorAction::Halt { fault }
                        }
                    },
                    _ => self.halt_violation(),
                }
            },
            Phase::AwaitingNamespaceProof { first_block, num_blocks, headers, mut proofs, index }
                => {
                match event {
                    ExecutorEvent::InclusionProof { proof } => {
                        let block = first_block + index;
                        let hlen = headers.len();
                        assert(index < hlen as u64);
                        let root = headers[index as usize].transactions_root;
                        let ghost pre_commit = commit_spec(self.ledger);
                        match self.ledger.execute_block(&root, &proof) {
                            Some(p) => {
                                proofs.push(p);
                                proof {
                                    assert(chained(proofs@)) by {
                                        assert(forall|k: int|
                                            0 <= k < proofs@.len() - 2 ==> (#[trigger] proofs@[
                                            k]).new_state == proofs@[k + 1].old_state);
                                        assert(proofs@.len() >= 2 ==> proofs@[proofs@.len()
                                            - 2].new_state == pre_commit);
                                    }
                                }
                                if index + 1 < num_blocks {
                                    self.phase = Phase::AwaitingCommitment {
                                        first_block,
                                        num_blocks,
                                        headers,
                                        proofs,
                                        index: index + 1,
                                    };
                                    ExecutorAction::FetchCommitment { block: block + 1 }
                                } else {
                                    match BatchProof::generate(&proofs) {
                                        Ok(batch) => {
                                            let state_commitment = self.ledger.commit();
                                            self.phase = Phase::SubmittingBatch {
                                                num_blocks,
                                                state_commitment,
                                                batch,
                                            };
                                            ExecutorAction::Submit {
                                                num_blocks,
                                                state_commitment,
                                                batch,
                                            }
                                        },
                                        Err(_) => {
                                            // The machine built the proofs in order, and the
                                            // invariant proves they chain: aggregation cannot
                                            // fail here.
                                            proof {
                                                assert(false);
                                            }
                                            self.halt_violation()
                                        },
                                    }
                                }
                            },
                            None => {
                                let fault = FatalFault::NamespaceProofInvalid { block };
                                self.phase = Phase::Halted { fault };
                                ExecutorAction::Halt { fault }
                            },
                        }
                    },
                    _ => self.halt_violation(),
                }
            },
            Phase::SubmittingBatch { num_blocks, state_commitment, batch } => {
                match event {
                    ExecutorEvent::Submitted { accepted } => {
                        if accepted {
                            self.phase = Phase::AwaitingRangeEvent;
                            ExecutorAction::AwaitRangeEvent
                        } else {
                            self.phase = Phase::SubmittingBatch {
                                num_blocks,
                                state_commitment,
                                batch,
                            };
                            ExecutorAction::Submit { num_blocks, state_commitment, batch }
                        }
                    },
                    _ => self.halt_violation(),
                }
            },
            Phase::Halted { fault } => {
                self.phase = Phase::Halted { fault };
                ExecutorAction::Halt { fault }
            },
        }
    }

    /// Halt on an input the current phase cannot accept.
    fn halt_violation(&mut self) -> (action: ExecutorAction)
        ensures
            final(self).ledger_spec() == old(self).ledger_spec(),
            final(self).phase_spec() matches Phase::Halted { fault } && fault
                == FatalFault::ProtocolViolation,
            action == (ExecutorAction::Halt { fault: FatalFault::ProtocolViolation }),
    {
        self.phase = Phase::Halted { fault: FatalFault::ProtocolViolation };
        ExecutorAction::Halt { fault: FatalFault::ProtocolViolation }
    }
}

/// What a protocol violation leaves behind: the machine halted, the ledger
/// untouched, and a halt action.
pub open spec fn step_violation(pre: Executor, post: Executor, action: ExecutorAction) -> bool {
    &&& post.ledger_spec() == pre.ledger_spec()
    &&& post.phase_spec() matches Phase::Halted { fault } && fault
        == FatalFault::ProtocolViolation
    &&& action == (ExecutorAction::Halt { fault: FatalFault::ProtocolViolation })
}

} // verus!
