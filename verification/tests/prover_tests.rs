use example_l2::block::{NamespaceProof, NmtRoot};
use example_l2::commitment::Commitment;
use example_l2::prover::{BatchProof, Proof, ProofError};
use example_l2::RollupVM;

fn comm(tag: u64) -> Commitment {
    Commitment { w0: tag, w1: 0, w2: 0, w3: 0 }
}

#[test]
fn batch_of_chained_proofs_aggregates() {
    let proofs = vec![
        Proof { block: comm(100), old_state: comm(0), new_state: comm(1) },
        Proof { block: comm(101), old_state: comm(1), new_state: comm(2) },
        Proof { block: comm(102), old_state: comm(2), new_state: comm(3) },
    ];
    let batch = BatchProof::generate(&proofs).expect("chained proofs aggregate");
    assert_eq!(batch.first_block, comm(100));
    assert_eq!(batch.last_block, comm(102));
    assert_eq!(batch.old_state, comm(0));
    assert_eq!(batch.new_state, comm(3));
}

#[test]
fn batch_of_one_proof_aggregates() {
    let proofs = vec![Proof { block: comm(100), old_state: comm(0), new_state: comm(1) }];
    let batch = BatchProof::generate(&proofs).expect("a single proof aggregates");
    assert_eq!(batch.first_block, comm(100));
    assert_eq!(batch.last_block, comm(100));
    assert_eq!(batch.old_state, comm(0));
    assert_eq!(batch.new_state, comm(1));
}

#[test]
fn batch_break_reports_first_violation() {
    let proofs = vec![
        Proof { block: comm(100), old_state: comm(0), new_state: comm(1) },
        Proof { block: comm(101), old_state: comm(1), new_state: comm(2) },
        Proof { block: comm(102), old_state: comm(9), new_state: comm(3) },
        Proof { block: comm(103), old_state: comm(8), new_state: comm(4) },
    ];
    let err = BatchProof::generate(&proofs).expect_err("broken chain must fail");
    assert_eq!(
        err,
        ProofError::OutOfOrder { position: 1, new_state: comm(2), old_state: comm(9) }
    );
}

#[test]
fn proof_generation_checks_namespace_proof() {
    let vm = RollupVM::new(3);
    let root = NmtRoot { root: comm(55) };
    let good = NamespaceProof { root: comm(55), namespace: 3, leaves: vec![] };
    let p = Proof::generate(&root, comm(2), comm(1), &good, &vm)
        .expect("matching proof verifies");
    assert_eq!(p.block, root.commit());
    assert_eq!(p.old_state, comm(1));
    assert_eq!(p.new_state, comm(2));

    // A proof for another root is a protocol-level contradiction.
    let wrong_root = NamespaceProof { root: comm(56), namespace: 3, leaves: vec![] };
    assert!(Proof::generate(&root, comm(2), comm(1), &wrong_root, &vm).is_none());

    // So is a proof for another namespace.
    let wrong_ns = NamespaceProof { root: comm(55), namespace: 4, leaves: vec![] };
    assert!(Proof::generate(&root, comm(2), comm(1), &wrong_ns, &vm).is_none());
}

#[test]
fn nmt_commitment_is_not_the_root_itself() {
    // The block commitment digests the root; it is not the root handed back.
    let root = NmtRoot { root: comm(123) };
    let c = root.commit();
    assert_ne!(c, root.root);
}
