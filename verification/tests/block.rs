use account_ledger::block::{Block, BlockBuilder, BlockError};
use account_ledger::crypto::generate_keypair_from_secret;
use account_ledger::merkle::root_hash;
use account_ledger::transaction::Transaction;

fn transfer(from: &[u8], to: &[u8], amount: u64, nonce: u64) -> Transaction {
    let (from_key, from_address) = generate_keypair_from_secret(from);
    let (_, to_address) = generate_keypair_from_secret(to);
    Transaction::new_and_sign(&from_address, &to_address, amount, nonce, &from_key).unwrap()
}

fn digest_of_fields(
    index: u64,
    timestamp: u64,
    previous_hash: &account_ledger::crypto::Hash,
    root: &account_ledger::crypto::Hash,
) -> account_ledger::crypto::Hash {
    let mut bytes = Vec::new();
    bytes.extend_from_slice(&index.to_be_bytes());
    bytes.extend_from_slice(&timestamp.to_be_bytes());
    bytes.extend_from_slice(&previous_hash.0);
    bytes.extend_from_slice(&root.0);
    account_ledger::crypto::Hash::from(bytes.as_slice())
}

#[test]
fn new_builder_is_empty() {
    let previous = account_ledger::crypto::Hash::from("previous".as_bytes());
    let builder = BlockBuilder::new(5, &previous);
    assert_eq!(builder.index(), 5);
    assert_eq!(builder.previous_hash(), previous);
    assert!(builder.transactions().is_empty());
    assert_eq!(builder.transactions_root(), account_ledger::crypto::Hash::default());
}

#[test]
fn builder_keeps_transactions_in_order() {
    let previous = account_ledger::crypto::Hash::from("previous".as_bytes());
    let first = transfer(b"alice", b"bob", 1, 0);
    let second = transfer(b"bob", b"carol", 2, 0);
    let mut builder = BlockBuilder::new(1, &previous);
    builder.add_transaction(&first);
    builder.add_transaction(&second);
    assert_eq!(builder.transactions().len(), 2);
    assert_eq!(builder.transactions()[0], first);
    assert_eq!(builder.transactions()[1], second);
    assert_eq!(builder.index(), 1);
    assert_eq!(builder.previous_hash(), previous);
}

#[test]
fn builder_does_not_validate() {
    let previous = account_ledger::crypto::Hash::from("previous".as_bytes());
    let (_, alice) = generate_keypair_from_secret(b"alice");
    let (_, bob) = generate_keypair_from_secret(b"bob");
    let unsigned = Transaction::new(&alice, &bob, 0, 9);
    let mut builder = BlockBuilder::new(1, &previous);
    builder.add_transaction(&unsigned);
    assert_eq!(builder.transactions().len(), 1);
}

#[test]
fn builder_root_is_the_merkle_root_of_the_transaction_hashes() {
    let previous = account_ledger::crypto::Hash::from("previous".as_bytes());
    let first = transfer(b"alice", b"bob", 1, 0);
    let second = transfer(b"bob", b"carol", 2, 0);
    let third = transfer(b"carol", b"alice", 3, 0);
    let mut builder = BlockBuilder::new(1, &previous);
    builder.add_transaction(&first);
    builder.add_transaction(&second);
    builder.add_transaction(&third);
    assert_eq!(
        builder.transactions_root(),
        root_hash(vec![first.hash(), second.hash(), third.hash()])
    );
    assert_ne!(
        builder.transactions_root(),
        root_hash(vec![second.hash(), first.hash(), third.hash()])
    );
}

#[test]
fn builder_hash_covers_index_timestamp_previous_hash_and_root() {
    let previous = account_ledger::crypto::Hash::from("previous".as_bytes());
    let first = transfer(b"alice", b"bob", 1, 0);
    let mut builder = BlockBuilder::new(3, &previous);
    builder.add_transaction(&first);
    let root = builder.transactions_root();
    assert_eq!(builder.hash(1000), digest_of_fields(3, 1000, &previous, &root));
    assert_ne!(builder.hash(1000), builder.hash(1001));
    assert_eq!(builder.transactions().len(), 1);
}

#[test]
fn build_at_fixes_timestamp_root_and_hash() {
    let previous = account_ledger::crypto::Hash::from("previous".as_bytes());
    let first = transfer(b"alice", b"bob", 1, 0);
    let second = transfer(b"bob", b"carol", 2, 0);
    let mut builder = BlockBuilder::new(3, &previous);
    builder.add_transaction(&first);
    builder.add_transaction(&second);
    let root = builder.transactions_root();
    let hash = builder.hash(1234);
    let block = builder.build_at(1234);
    assert_eq!(block.index(), 3);
    assert_eq!(block.timestamp(), 1234);
    assert_eq!(block.previous_hash(), previous);
    assert_eq!(block.transactions_root(), root);
    assert_eq!(block.hash(), hash);
    assert_eq!(block.transactions().len(), 2);
    assert_eq!(block.transactions()[0], first);
    assert_eq!(block.transactions()[1], second);
    assert_eq!(block.verify(), Ok(()));
}

#[test]
fn build_reads_the_clock() {
    let previous = account_ledger::crypto::Hash::from("previous".as_bytes());
    let builder = BlockBuilder::new(1, &previous);
    let expected_root = builder.transactions_root();
    let block = builder.build();
    // Later than the first of January 2020.
    assert!(block.timestamp() > 1_577_836_800);
    assert_eq!(block.index(), 1);
    assert_eq!(block.transactions_root(), expected_root);
    assert_eq!(
        block.hash(),
        digest_of_fields(1, block.timestamp(), &previous, &expected_root)
    );
    assert_eq!(block.verify(), Ok(()));
}

#[test]
fn block_from_builder_is_built() {
    let previous = account_ledger::crypto::Hash::from("previous".as_bytes());
    let mut builder = BlockBuilder::new(2, &previous);
    builder.add_transaction(&transfer(b"alice", b"bob", 1, 0));
    let root = builder.transactions_root();
    let block = Block::from(builder);
    assert_eq!(block.index(), 2);
    assert_eq!(block.previous_hash(), previous);
    assert_eq!(block.transactions_root(), root);
    assert_eq!(block.hash(), digest_of_fields(2, block.timestamp(), &previous, &root));
}

#[test]
fn genesis_needs_a_transaction() {
    assert_eq!(
        Block::new_genesis(vec![], 1000).err(),
        Some(BlockError::EmptyGenesis)
    );
}

#[test]
fn genesis_refuses_a_transaction_that_does_not_verify() {
    let (_, alice) = generate_keypair_from_secret(b"alice");
    let (_, bob) = generate_keypair_from_secret(b"bob");
    let good = transfer(b"alice", b"bob", 1, 0);
    let unsigned = Transaction::new(&alice, &bob, 1000, 0);
    assert_eq!(
        Block::new_genesis(vec![good, unsigned], 1000).err(),
        Some(BlockError::InvalidTransaction)
    );
    assert_eq!(
        Block::new_genesis(vec![unsigned], 1000).err(),
        Some(BlockError::InvalidTransaction)
    );
}

#[test]
fn genesis_block_has_index_zero_and_no_predecessor() {
    let first = transfer(b"issuer", b"alice", 1000, 0);
    let second = transfer(b"issuer", b"bob", 500, 0);
    let block = Block::new_genesis(vec![first, second], 1000).unwrap();
    assert_eq!(block.index(), 0);
    assert_eq!(block.timestamp(), 1000);
    assert_eq!(block.previous_hash(), account_ledger::crypto::Hash::default());
    let root = root_hash(vec![first.hash(), second.hash()]);
    assert_eq!(block.transactions_root(), root);
    assert_eq!(
        block.hash(),
        digest_of_fields(0, 1000, &account_ledger::crypto::Hash::default(), &root)
    );
    assert_eq!(block.transactions().len(), 2);
    assert_eq!(block.transactions()[0], first);
    assert_eq!(block.transactions()[1], second);
}

#[test]
fn constructed_block_passes_verification() {
    let block = Block::new_genesis(vec![transfer(b"issuer", b"alice", 1000, 0)], 1000).unwrap();
    assert_eq!(block.verify(), Ok(()));
    let copy = block.clone();
    assert_eq!(copy.verify(), Ok(()));
    assert_eq!(copy.hash(), block.hash());
}

#[test]
fn block_from_its_own_parts_passes_verification() {
    let block = Block::new_genesis(vec![transfer(b"issuer", b"alice", 1000, 0)], 1000).unwrap();
    let rebuilt = Block::from_parts(
        block.index(),
        block.timestamp(),
        block.previous_hash(),
        block.transactions_root(),
        block.transactions().clone(),
        block.hash(),
    );
    assert_eq!(rebuilt.verify(), Ok(()));
    assert_eq!(rebuilt.hash(), block.hash());
}

#[test]
fn changed_amount_fails_on_the_root() {
    let (issuer_key, issuer) = generate_keypair_from_secret(b"issuer");
    let (_, alice) = generate_keypair_from_secret(b"alice");
    let issued = Transaction::new_and_sign(&issuer, &alice, 1000, 0, &issuer_key).unwrap();
    let block = Block::new_genesis(vec![issued], 1000).unwrap();
    // The same transfer with another amount, under the old signature, cannot
    // be made through `new_signed`; the unsigned one stands for it, since the
    // root is checked before any signature.
    let changed = Transaction::new(&issuer, &alice, 1001, 0);
    let tampered = Block::from_parts(
        block.index(),
        block.timestamp(),
        block.previous_hash(),
        block.transactions_root(),
        vec![changed],
        block.hash(),
    );
    assert_eq!(tampered.verify(), Err(BlockError::InvalidTransactionsRoot));
}

#[test]
fn changed_amount_with_a_new_root_fails_on_the_hash() {
    let (issuer_key, issuer) = generate_keypair_from_secret(b"issuer");
    let (_, alice) = generate_keypair_from_secret(b"alice");
    let issued = Transaction::new_and_sign(&issuer, &alice, 1000, 0, &issuer_key).unwrap();
    let block = Block::new_genesis(vec![issued], 1000).unwrap();
    let changed = Transaction::new_and_sign(&issuer, &alice, 1001, 0, &issuer_key).unwrap();
    let tampered = Block::from_parts(
        block.index(),
        block.timestamp(),
        block.previous_hash(),
        root_hash(vec![changed.hash()]),
        vec![changed],
        block.hash(),
    );
    assert_eq!(tampered.verify(), Err(BlockError::InvalidBlockHash));
}

#[test]
fn changed_header_fails_on_the_hash() {
    let block = Block::new_genesis(vec![transfer(b"issuer", b"alice", 1000, 0)], 1000).unwrap();
    let later = Block::from_parts(
        block.index(),
        block.timestamp() + 1,
        block.previous_hash(),
        block.transactions_root(),
        block.transactions().clone(),
        block.hash(),
    );
    assert_eq!(later.verify(), Err(BlockError::InvalidBlockHash));
    let moved = Block::from_parts(
        block.index() + 1,
        block.timestamp(),
        block.previous_hash(),
        block.transactions_root(),
        block.transactions().clone(),
        block.hash(),
    );
    assert_eq!(moved.verify(), Err(BlockError::InvalidBlockHash));
    let relinked = Block::from_parts(
        block.index(),
        block.timestamp(),
        block.hash(),
        block.transactions_root(),
        block.transactions().clone(),
        block.hash(),
    );
    assert_eq!(relinked.verify(), Err(BlockError::InvalidBlockHash));
}

#[test]
fn consistent_block_with_a_bad_signature_fails_on_the_signature() {
    let (_, issuer) = generate_keypair_from_secret(b"issuer");
    let (_, alice) = generate_keypair_from_secret(b"alice");
    let unsigned = Transaction::new(&issuer, &alice, 1000, 0);
    let mut builder = BlockBuilder::new(4, &account_ledger::crypto::Hash::default());
    builder.add_transaction(&unsigned);
    let block = builder.build_at(1000);
    assert_eq!(block.verify(), Err(BlockError::InvalidSignature));
}

#[test]
fn empty_block_passes_verification() {
    let builder = BlockBuilder::new(4, &account_ledger::crypto::Hash::default());
    let block = builder.build_at(1000);
    assert_eq!(block.transactions_root(), account_ledger::crypto::Hash::default());
    assert_eq!(block.verify(), Ok(()));
}

#[test]
fn blocks_are_equal_where_they_hold_the_same() {
    let block = Block::new_genesis(vec![transfer(b"issuer", b"alice", 1000, 0)], 1000).unwrap();
    let same = Block::new_genesis(vec![transfer(b"issuer", b"alice", 1000, 0)], 1000).unwrap();
    let later = Block::new_genesis(vec![transfer(b"issuer", b"alice", 1000, 0)], 1001).unwrap();
    let other = Block::new_genesis(vec![transfer(b"issuer", b"alice", 1001, 0)], 1000).unwrap();
    let longer = Block::new_genesis(
        vec![transfer(b"issuer", b"alice", 1000, 0), transfer(b"issuer", b"bob", 1, 0)],
        1000,
    )
    .unwrap();
    assert_eq!(block, same);
    assert_eq!(block, block.clone());
    assert_ne!(block, later);
    assert_ne!(block, other);
    assert_ne!(block, longer);
}

#[test]
fn builders_are_equal_where_they_hold_the_same() {
    let previous = account_ledger::crypto::Hash::from("previous".as_bytes());
    let mut builder = BlockBuilder::new(1, &previous);
    let mut same = BlockBuilder::new(1, &previous);
    assert_eq!(builder, same);
    assert_ne!(builder, BlockBuilder::new(2, &previous));
    assert_ne!(builder, BlockBuilder::new(1, &account_ledger::crypto::Hash::default()));
    builder.add_transaction(&transfer(b"alice", b"bob", 1, 0));
    assert_ne!(builder, same);
    same.add_transaction(&transfer(b"alice", b"bob", 1, 0));
    assert_eq!(builder, same);
    assert_eq!(builder.clone(), builder);
    same.add_transaction(&transfer(b"alice", b"bob", 1, 1));
    assert_ne!(builder, same);
}
