use example_l2::address::Address;
use example_l2::error::RollupError;
use example_l2::state::{Account, State};
use example_l2::transaction::{address_of_key, SignedTransaction, Transaction};
use example_l2::RollupVM;

fn key(byte: u8) -> Vec<u8> {
    vec![byte; 32]
}

fn addr(key_bytes: &Vec<u8>) -> Address {
    address_of_key(key_bytes).expect("valid key")
}

#[test]
fn smoke_test() {
    let vm = RollupVM::new(1);
    let alice_key = key(7);
    let bob_key = key(9);
    let alice = addr(&alice_key);
    let bob = addr(&bob_key);
    let seed_data = vec![(alice, 100), (bob, 100)];
    let mut state = State::from_initial_balances(seed_data, vm);
    let mut transaction = Transaction { amount: 110, destination: bob, nonce: 1 };

    // Try to overspend
    let mut signed_transaction =
        SignedTransaction::new(transaction, &alice_key).expect("signing should succeed");
    let err = state
        .clone()
        .apply_transaction(&signed_transaction)
        .expect_err("Invalid transaction should throw error.");
    assert_eq!(err, RollupError::InsufficientBalance { address: alice });

    // Now spend an valid amount
    transaction.amount = 50;
    signed_transaction =
        SignedTransaction::new(transaction, &alice_key).expect("signing should succeed");
    state
        .apply_transaction(&signed_transaction)
        .expect("Valid transaction should transition state");
    let bob_balance = state.get_balance(&bob);
    assert_eq!(bob_balance, 150);

    // Now try to replay the transaction
    let err = state
        .apply_transaction(&signed_transaction)
        .expect_err("Invalid transaction should throw error.");
    assert_eq!(
        err,
        RollupError::InvalidNonce { address: alice, expected: 2, actual: 1 }
    );
}

#[test]
fn overspend_leaves_state_unchanged() {
    // Genesis {Alice: 9999}; an overspend fails with InsufficientBalance and
    // changes nothing.
    let vm = RollupVM::new(1);
    let alice_key = key(7);
    let bob_key = key(9);
    let alice = addr(&alice_key);
    let bob = addr(&bob_key);
    let mut state = State::from_initial_balances(vec![(alice, 9999)], vm);
    let transaction = Transaction { amount: 110_000, destination: bob, nonce: 1 };
    let signed = SignedTransaction::new(transaction, &alice_key).unwrap();
    let err = state.apply_transaction(&signed).expect_err("overspend must fail");
    assert_eq!(err, RollupError::InsufficientBalance { address: alice });
    assert_eq!(state.get_balance(&alice), 9999);
    assert_eq!(state.get_nonce(&alice), 0);
    assert_eq!(state.get_balance(&bob), 0);
}

#[test]
fn unknown_sender_rejected() {
    // No account means zero balance: any positive transfer from it fails.
    let vm = RollupVM::new(1);
    let alice_key = key(7);
    let carol_key = key(11);
    let alice = addr(&alice_key);
    let carol = addr(&carol_key);
    let mut state = State::from_initial_balances(vec![(alice, 100)], vm);
    let transaction = Transaction { amount: 1, destination: alice, nonce: 1 };
    let signed = SignedTransaction::new(transaction, &carol_key).unwrap();
    let err = state.apply_transaction(&signed).expect_err("unknown sender must fail");
    assert_eq!(err, RollupError::InsufficientBalance { address: carol });
}

#[test]
fn bad_signature_rejected() {
    // A signature whose recovery-id byte is out of range cannot recover.
    let vm = RollupVM::new(1);
    let alice_key = key(7);
    let alice = addr(&alice_key);
    let mut state = State::from_initial_balances(vec![(alice, 100)], vm);
    let transaction = Transaction { amount: 1, destination: alice, nonce: 1 };
    let mut signed = SignedTransaction::new(transaction, &alice_key).unwrap();
    signed.signature.v = 10;
    let err = state.apply_transaction(&signed).expect_err("bad signature must fail");
    assert_eq!(err, RollupError::SignatureError);
}

#[test]
fn wrong_nonce_rejected() {
    let vm = RollupVM::new(1);
    let alice_key = key(7);
    let bob_key = key(9);
    let alice = addr(&alice_key);
    let bob = addr(&bob_key);
    let mut state = State::from_initial_balances(vec![(alice, 100)], vm);
    let transaction = Transaction { amount: 1, destination: bob, nonce: 3 };
    let signed = SignedTransaction::new(transaction, &alice_key).unwrap();
    let err = state.apply_transaction(&signed).expect_err("wrong nonce must fail");
    assert_eq!(
        err,
        RollupError::InvalidNonce { address: alice, expected: 1, actual: 3 }
    );
    assert_eq!(state.get_nonce(&alice), 0);
    assert_eq!(state.get_balance(&alice), 100);
}

#[test]
fn conservation_of_total_supply() {
    // The sum of all balances is invariant under applied transactions.
    let vm = RollupVM::new(1);
    let alice_key = key(7);
    let bob_key = key(9);
    let alice = addr(&alice_key);
    let bob = addr(&bob_key);
    let mut state = State::from_initial_balances(vec![(alice, 600), (bob, 400)], vm);
    for nonce in 1..=3u64 {
        let t = Transaction { amount: 50, destination: bob, nonce };
        let signed = SignedTransaction::new(t, &alice_key).unwrap();
        state.apply_transaction(&signed).expect("valid transfer");
        assert_eq!(state.get_balance(&alice) + state.get_balance(&bob), 1000);
    }
    assert_eq!(state.get_balance(&alice), 450);
    assert_eq!(state.get_balance(&bob), 550);
    assert_eq!(state.get_nonce(&alice), 3);
}

#[test]
fn self_transfer_keeps_balance() {
    let vm = RollupVM::new(1);
    let alice_key = key(7);
    let alice = addr(&alice_key);
    let mut state = State::from_initial_balances(vec![(alice, 100)], vm);
    let t = Transaction { amount: 40, destination: alice, nonce: 1 };
    let signed = SignedTransaction::new(t, &alice_key).unwrap();
    state.apply_transaction(&signed).expect("self transfer is valid");
    assert_eq!(state.get_balance(&alice), 100);
    assert_eq!(state.get_nonce(&alice), 1);
}

#[test]
fn commit_deterministic_across_insertion_orders() {
    // Two ledgers with equal logical accounts built in different orders
    // commit identically.
    let vm = RollupVM::new(5);
    let a = Address { hi: 3, lo: 17 };
    let b = Address { hi: 1, lo: 400 };
    let c = Address { hi: 1, lo: 2 };
    let s1 = State::from_initial_balances(vec![(a, 10), (b, 20), (c, 30)], vm);
    let s2 = State::from_initial_balances(vec![(c, 30), (a, 10), (b, 20)], vm);
    assert_eq!(s1.commit(), s2.commit());

    // A different balance commits differently.
    let s3 = State::from_initial_balances(vec![(a, 11), (b, 20), (c, 30)], vm);
    assert_ne!(s1.commit(), s3.commit());

    // A different namespace id commits differently.
    let s4 = State::from_initial_balances(vec![(a, 10), (b, 20), (c, 30)], RollupVM::new(6));
    assert_ne!(s1.commit(), s4.commit());
}

#[test]
fn duplicate_genesis_address_keeps_last_balance() {
    let vm = RollupVM::new(1);
    let a = Address { hi: 0, lo: 1 };
    let state = State::from_initial_balances(vec![(a, 10), (a, 25)], vm);
    assert_eq!(state.get_balance(&a), 25);
}

#[test]
fn unknown_address_reads_zero() {
    let vm = RollupVM::new(1);
    let a = Address { hi: 0, lo: 1 };
    let stranger = Address { hi: 9, lo: 9 };
    let state = State::from_initial_balances(vec![(a, 10)], vm);
    assert_eq!(state.get_balance(&stranger), 0);
    assert_eq!(state.get_nonce(&stranger), 0);
}

#[test]
fn account_default_is_empty() {
    let acct = Account::default();
    assert_eq!(acct.balance, 0);
    assert_eq!(acct.nonce, 0);
}
