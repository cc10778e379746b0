use account_ledger::crypto::{
    generate_keypair_from_secret, sign_hash, verify_signature, CryptoError, Signature,
};
use account_ledger::transaction::Transaction;

#[test]
fn new_transaction_is_unsigned() {
    let (_, alice) = generate_keypair_from_secret(b"alice");
    let (_, bob) = generate_keypair_from_secret(b"bob");
    let tx = Transaction::new(&alice, &bob, 300, 7);
    assert_eq!(tx.from(), alice);
    assert_eq!(tx.to(), bob);
    assert_eq!(tx.amount(), 300);
    assert_eq!(tx.nonce(), 7);
    assert_eq!(tx.signature(), Signature::default());
    assert_eq!(tx.verify(), Err(CryptoError::InvalidSignature));
}

#[test]
fn transaction_hash_covers_sender_recipient_amount_and_nonce() {
    let (_, alice) = generate_keypair_from_secret(b"alice");
    let (_, bob) = generate_keypair_from_secret(b"bob");
    let tx = Transaction::new(&alice, &bob, 300, 7);
    let mut payload = Vec::new();
    payload.extend_from_slice(&alice.0);
    payload.extend_from_slice(&bob.0);
    payload.extend_from_slice(&[0, 0, 0, 0, 0, 0, 0x01, 0x2c]);
    payload.extend_from_slice(&[0, 0, 0, 0, 0, 0, 0, 7]);
    assert_eq!(payload.len(), 82);
    assert_eq!(tx.hash(), account_ledger::crypto::Hash::from(payload.as_slice()));
}

#[test]
fn transaction_hash_changes_with_every_hashed_field() {
    let (_, alice) = generate_keypair_from_secret(b"alice");
    let (_, bob) = generate_keypair_from_secret(b"bob");
    let tx = Transaction::new(&alice, &bob, 300, 7);
    assert_ne!(tx.hash(), Transaction::new(&bob, &alice, 300, 7).hash());
    assert_ne!(tx.hash(), Transaction::new(&alice, &alice, 300, 7).hash());
    assert_ne!(tx.hash(), Transaction::new(&alice, &bob, 301, 7).hash());
    assert_ne!(tx.hash(), Transaction::new(&alice, &bob, 300, 8).hash());
    assert_ne!(tx.hash(), Transaction::new(&alice, &bob, 7, 300).hash());
}

#[test]
fn transaction_hash_is_the_same_before_and_after_signing() {
    let (alice_key, alice) = generate_keypair_from_secret(b"alice");
    let (_, bob) = generate_keypair_from_secret(b"bob");
    let mut tx = Transaction::new(&alice, &bob, 300, 0);
    let before = tx.hash();
    tx.sign(&alice_key).unwrap();
    assert_eq!(tx.hash(), before);
    assert_ne!(tx.signature(), Signature::default());
}

#[test]
fn signed_transaction_verifies() {
    let (alice_key, alice) = generate_keypair_from_secret(b"alice");
    let (_, bob) = generate_keypair_from_secret(b"bob");
    let mut tx = Transaction::new(&alice, &bob, 300, 0);
    assert_eq!(tx.sign(&alice_key), Ok(()));
    assert_eq!(tx.verify(), Ok(()));
    assert_eq!(tx.signature(), sign_hash(&tx.hash(), &alice_key).unwrap());
    assert_eq!(verify_signature(&alice, &tx.hash(), &tx.signature()), Ok(()));
}

#[test]
fn new_and_sign_is_new_then_sign() {
    let (alice_key, alice) = generate_keypair_from_secret(b"alice");
    let (_, bob) = generate_keypair_from_secret(b"bob");
    let tx = Transaction::new_and_sign(&alice, &bob, 300, 0, &alice_key).unwrap();
    let mut by_hand = Transaction::new(&alice, &bob, 300, 0);
    by_hand.sign(&alice_key).unwrap();
    assert_eq!(tx, by_hand);
    assert_eq!(tx.verify(), Ok(()));
    assert_eq!(tx.amount(), 300);
    assert_eq!(tx.nonce(), 0);
}

#[test]
fn transaction_signed_with_another_key_does_not_verify() {
    let (_, alice) = generate_keypair_from_secret(b"alice");
    let (bob_key, bob) = generate_keypair_from_secret(b"bob");
    let tx = Transaction::new_and_sign(&alice, &bob, 300, 0, &bob_key).unwrap();
    assert_eq!(tx.verify(), Err(CryptoError::InvalidSignature));
}

#[test]
fn zero_amount_verifies_at_this_layer() {
    let (alice_key, alice) = generate_keypair_from_secret(b"alice");
    let (_, bob) = generate_keypair_from_secret(b"bob");
    let tx = Transaction::new_and_sign(&alice, &bob, 0, 0, &alice_key).unwrap();
    assert_eq!(tx.verify(), Ok(()));
}

#[test]
fn new_signed_takes_a_signature_that_verifies() {
    let (alice_key, alice) = generate_keypair_from_secret(b"alice");
    let (_, bob) = generate_keypair_from_secret(b"bob");
    let signed = Transaction::new_and_sign(&alice, &bob, 300, 0, &alice_key).unwrap();
    let tx = Transaction::new_signed(&alice, &bob, 300, 0, &signed.signature()).unwrap();
    assert_eq!(tx, signed);
}

#[test]
fn new_signed_refuses_a_signature_that_does_not_verify() {
    let (alice_key, alice) = generate_keypair_from_secret(b"alice");
    let (_, bob) = generate_keypair_from_secret(b"bob");
    let signed = Transaction::new_and_sign(&alice, &bob, 300, 0, &alice_key).unwrap();
    assert_eq!(
        Transaction::new_signed(&alice, &bob, 301, 0, &signed.signature()),
        Err(CryptoError::InvalidSignature)
    );
    assert_eq!(
        Transaction::new_signed(&alice, &bob, 300, 0, &Signature::default()),
        Err(CryptoError::InvalidSignature)
    );
    assert_eq!(
        Transaction::new_signed(&bob, &alice, 300, 0, &signed.signature()),
        Err(CryptoError::InvalidSignature)
    );
}
