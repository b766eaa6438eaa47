use example_l2::block::{Header, NamespaceProof, NmtRoot};
use example_l2::commitment::Commitment;
use example_l2::executor::{
    Executor, ExecutorAction, ExecutorEvent, FatalFault, Phase, RangeEvent,
};
use example_l2::state::State;
use example_l2::transaction::{address_of_key, SignedTransaction, Transaction};
use example_l2::RollupVM;

fn key(byte: u8) -> Vec<u8> {
    vec![byte; 32]
}

fn comm(tag: u64) -> Commitment {
    Commitment { w0: tag, w1: 0, w2: 0, w3: 0 }
}

fn header(height: u64, root_tag: u64) -> Header {
    Header { height, transactions_root: NmtRoot { root: comm(root_tag) } }
}

/// A namespace proof matching `header` for namespace `ns`, carrying the
/// given payloads.
fn proof_for(header: &Header, ns: u64, leaves: Vec<Vec<u8>>) -> NamespaceProof {
    NamespaceProof { root: header.transactions_root.root, namespace: ns, leaves }
}

#[test]
fn range_event_cycle_submits_one_batch_until_accepted() {
    // A range event {first_block: 10, num_blocks: 3} with headers whose
    // commitments match the settlement records produces exactly one batch
    // spanning blocks 10..=12, submitted once per attempt until accepted.
    let ns = 1u64;
    let alice_key = key(7);
    let bob_key = key(9);
    let alice = address_of_key(&alice_key).unwrap();
    let bob = address_of_key(&bob_key).unwrap();
    let ledger = State::from_initial_balances(vec![(alice, 9999)], RollupVM::new(ns));
    let initial_commit = ledger.commit();
    let mut exec = Executor::new(ledger);

    let action = exec.step(ExecutorEvent::Range {
        event: Some(RangeEvent { first_block: 10, num_blocks: 3 }),
    });
    assert_eq!(action, ExecutorAction::PullHeader);

    let headers = [header(10, 1000), header(11, 1001), header(12, 1002)];
    let action = exec.step(ExecutorEvent::Header { header: headers[0] });
    assert_eq!(action, ExecutorAction::PullHeader);
    let action = exec.step(ExecutorEvent::Header { header: headers[1] });
    assert_eq!(action, ExecutorAction::PullHeader);
    let action = exec.step(ExecutorEvent::Header { header: headers[2] });
    assert_eq!(action, ExecutorAction::FetchCommitment { block: 10 });

    // Block 10 carries one transfer; blocks 11 and 12 are empty for this
    // namespace.
    let tx = Transaction { amount: 50, destination: bob, nonce: 1 };
    let signed = SignedTransaction::new(tx, &alice_key).unwrap();
    let payloads = vec![signed.encode()];

    let action = exec.step(ExecutorEvent::RecordedCommitment { commitment: headers[0].commit() });
    assert_eq!(action, ExecutorAction::FetchProof { block: 10, namespace: ns });
    let action = exec.step(ExecutorEvent::InclusionProof {
        proof: proof_for(&headers[0], ns, payloads),
    });
    assert_eq!(action, ExecutorAction::FetchCommitment { block: 11 });

    let action = exec.step(ExecutorEvent::RecordedCommitment { commitment: headers[1].commit() });
    assert_eq!(action, ExecutorAction::FetchProof { block: 11, namespace: ns });
    let action = exec.step(ExecutorEvent::InclusionProof {
        proof: proof_for(&headers[1], ns, vec![]),
    });
    assert_eq!(action, ExecutorAction::FetchCommitment { block: 12 });

    let action = exec.step(ExecutorEvent::RecordedCommitment { commitment: headers[2].commit() });
    assert_eq!(action, ExecutorAction::FetchProof { block: 12, namespace: ns });
    let action = exec.step(ExecutorEvent::InclusionProof {
        proof: proof_for(&headers[2], ns, vec![]),
    });

    // The ledger applied the transfer while executing block 10.
    assert_eq!(exec.ledger().get_balance(&bob), 50);
    assert_eq!(exec.ledger().get_balance(&alice), 9949);

    // Exactly one batch, spanning the three blocks and the whole state
    // transition.
    let final_commit = exec.ledger().commit();
    let batch = match action {
        ExecutorAction::Submit { num_blocks, state_commitment, batch } => {
            assert_eq!(num_blocks, 3);
            assert_eq!(state_commitment, final_commit);
            batch
        },
        other => panic!("expected a submission, got {:?}", other),
    };
    assert_eq!(batch.first_block, headers[0].transactions_root.commit());
    assert_eq!(batch.last_block, headers[2].transactions_root.commit());
    assert_eq!(batch.old_state, initial_commit);
    assert_eq!(batch.new_state, final_commit);

    // A failed submission retries the same batch; the machine does not
    // advance until the settlement chain accepts it.
    let action = exec.step(ExecutorEvent::Submitted { accepted: false });
    match action {
        ExecutorAction::Submit { num_blocks, state_commitment, batch: again } => {
            assert_eq!(num_blocks, 3);
            assert_eq!(state_commitment, final_commit);
            assert_eq!(again, batch);
        },
        other => panic!("expected a retry, got {:?}", other),
    }
    let action = exec.step(ExecutorEvent::Submitted { accepted: true });
    assert_eq!(action, ExecutorAction::AwaitRangeEvent);
    assert!(matches!(exec.phase(), Phase::AwaitingRangeEvent));
}

#[test]
fn malformed_range_event_is_skipped() {
    let alice = address_of_key(&key(7)).unwrap();
    let ledger = State::from_initial_balances(vec![(alice, 10)], RollupVM::new(1));
    let mut exec = Executor::new(ledger);
    let action = exec.step(ExecutorEvent::Range { event: None });
    assert_eq!(action, ExecutorAction::AwaitRangeEvent);
    let action = exec.step(ExecutorEvent::Range {
        event: Some(RangeEvent { first_block: 5, num_blocks: 0 }),
    });
    assert_eq!(action, ExecutorAction::AwaitRangeEvent);
    assert!(matches!(exec.phase(), Phase::AwaitingRangeEvent));
}

#[test]
fn commitment_mismatch_is_fatal() {
    let ns = 2u64;
    let alice = address_of_key(&key(7)).unwrap();
    let ledger = State::from_initial_balances(vec![(alice, 10)], RollupVM::new(ns));
    let mut exec = Executor::new(ledger);
    exec.step(ExecutorEvent::Range {
        event: Some(RangeEvent { first_block: 4, num_blocks: 1 }),
    });
    let h = header(4, 77);
    exec.step(ExecutorEvent::Header { header: h });
    // The settlement ledger recorded something else for block 4.
    let action = exec.step(ExecutorEvent::RecordedCommitment { commitment: comm(12345) });
    assert_eq!(
        action,
        ExecutorAction::Halt {
            fault: FatalFault::CommitmentMismatch {
                block: 4,
                recorded: comm(12345),
                header: h.commit(),
            },
        }
    );
    assert!(matches!(exec.phase(), Phase::Halted { .. }));
}

#[test]
fn namespace_proof_mismatch_is_fatal() {
    let ns = 2u64;
    let alice = address_of_key(&key(7)).unwrap();
    let ledger = State::from_initial_balances(vec![(alice, 10)], RollupVM::new(ns));
    let mut exec = Executor::new(ledger);
    exec.step(ExecutorEvent::Range {
        event: Some(RangeEvent { first_block: 4, num_blocks: 1 }),
    });
    let h = header(4, 77);
    exec.step(ExecutorEvent::Header { header: h });
    exec.step(ExecutorEvent::RecordedCommitment { commitment: h.commit() });
    // The proof speaks of another namespace.
    let bad = NamespaceProof { root: h.transactions_root.root, namespace: ns + 1, leaves: vec![] };
    let action = exec.step(ExecutorEvent::InclusionProof { proof: bad });
    assert_eq!(
        action,
        ExecutorAction::Halt { fault: FatalFault::NamespaceProofInvalid { block: 4 } }
    );
}

#[test]
fn unexpected_input_is_fatal() {
    let alice = address_of_key(&key(7)).unwrap();
    let ledger = State::from_initial_balances(vec![(alice, 10)], RollupVM::new(1));
    let mut exec = Executor::new(ledger);
    let action = exec.step(ExecutorEvent::Submitted { accepted: true });
    assert_eq!(action, ExecutorAction::Halt { fault: FatalFault::ProtocolViolation });
    // A halted machine stays halted, whatever comes.
    let action = exec.step(ExecutorEvent::Range { event: None });
    assert_eq!(action, ExecutorAction::Halt { fault: FatalFault::ProtocolViolation });
}

#[test]
fn execute_block_skips_invalid_transactions() {
    // Best-effort block execution: a malformed payload and an invalid
    // transaction are skipped; the valid one still applies.
    let ns = 1u64;
    let alice_key = key(7);
    let bob_key = key(9);
    let alice = address_of_key(&alice_key).unwrap();
    let bob = address_of_key(&bob_key).unwrap();
    let mut ledger = State::from_initial_balances(vec![(alice, 100)], RollupVM::new(ns));
    let before = ledger.commit();

    let good = SignedTransaction::new(
        Transaction { amount: 30, destination: bob, nonce: 1 },
        &alice_key,
    )
    .unwrap();
    let overspend = SignedTransaction::new(
        Transaction { amount: 1000, destination: bob, nonce: 2 },
        &alice_key,
    )
    .unwrap();
    let leaves = vec![vec![1, 2, 3], good.encode(), overspend.encode()];

    let root = NmtRoot { root: comm(500) };
    let nsp = NamespaceProof { root: comm(500), namespace: ns, leaves };
    let p = ledger.execute_block(&root, &nsp).expect("namespace proof matches");
    assert_eq!(ledger.get_balance(&bob), 30);
    assert_eq!(ledger.get_balance(&alice), 70);
    assert_eq!(p.old_state, before);
    assert_eq!(p.new_state, ledger.commit());
    assert_eq!(p.block, root.commit());
}
