use example_l2::address::Address;
use example_l2::transaction::{address_of_key, SignedTransaction, Transaction};

fn key(byte: u8) -> Vec<u8> {
    vec![byte; 32]
}

#[test]
fn test_transaction_signature() {
    let alice_key = key(7);
    let alice = address_of_key(&alice_key).expect("valid key");
    let transaction = Transaction { amount: 100, destination: alice, nonce: 1 };
    let signed_transaction =
        SignedTransaction::new(transaction, &alice_key).expect("signing should succeed");
    let recovered_address = signed_transaction.recover().expect("Should recover address");
    assert_eq!(recovered_address, alice);
}

#[test]
fn recover_distinguishes_signers() {
    let alice_key = key(7);
    let bob_key = key(9);
    let bob = address_of_key(&bob_key).expect("valid key");
    let transaction = Transaction { amount: 5, destination: bob, nonce: 1 };
    let signed = SignedTransaction::new(transaction, &alice_key).unwrap();
    let recovered = signed.recover().expect("Should recover address");
    assert_ne!(recovered, bob);
}

#[test]
fn invalid_key_rejected() {
    // The zero scalar is not a valid secret key.
    let zero_key = vec![0u8; 32];
    assert!(address_of_key(&zero_key).is_none());
    let t = Transaction { amount: 1, destination: Address { hi: 0, lo: 1 }, nonce: 1 };
    assert!(SignedTransaction::new(t, &zero_key).is_none());
}

#[test]
fn transaction_round_trip() {
    let t = Transaction {
        amount: 12345678901234567,
        destination: Address { hi: 0xDEADBEEF, lo: 0x0123456789ABCDEF0123456789ABCDEF },
        nonce: 42,
    };
    let bytes = t.encode();
    assert_eq!(bytes.len(), 36);
    let decoded = Transaction::decode(bytes.as_slice()).expect("encoding must decode");
    assert_eq!(decoded, t);
}

#[test]
fn signed_transaction_round_trip() {
    let alice_key = key(7);
    let bob = address_of_key(&key(9)).unwrap();
    let t = Transaction { amount: 77, destination: bob, nonce: 3 };
    let signed = SignedTransaction::new(t, &alice_key).unwrap();
    let bytes = signed.encode();
    assert_eq!(bytes.len(), 101);
    let decoded = SignedTransaction::decode(bytes.as_slice()).expect("encoding must decode");
    assert_eq!(decoded, signed);
    // The decoded value still authenticates as Alice.
    let alice = address_of_key(&alice_key).unwrap();
    assert_eq!(decoded.recover().unwrap(), alice);
}

#[test]
fn malformed_encodings_rejected() {
    assert!(Transaction::decode(&[0u8; 35]).is_none());
    assert!(Transaction::decode(&[0u8; 37]).is_none());
    assert!(Transaction::decode(&[]).is_none());
    assert!(SignedTransaction::decode(&[1u8; 100]).is_none());
    assert!(SignedTransaction::decode(&[1u8; 102]).is_none());
}
