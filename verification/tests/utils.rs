use account_ledger::utils::{generate_keypair, hash, is_valid_public_key, sign_hash, verify_signature};

fn from_hex(text: &str) -> Vec<u8> {
    let digits: Vec<u8> = text
        .bytes()
        .map(|c| match c {
            b'0'..=b'9' => c - b'0',
            b'a'..=b'f' => c - b'a' + 10,
            _ => panic!("not a hex digit"),
        })
        .collect();
    digits.chunks(2).map(|pair| pair[0] * 16 + pair[1]).collect()
}

fn generator() -> Vec<u8> {
    from_hex("0279be667ef9dcbbac55a06295ce870b07029bfcdb2dce28d959f2815b16f81798")
}

fn key_one() -> Vec<u8> {
    let mut key = vec![0u8; 32];
    key[31] = 1;
    key
}

#[test]
fn hash_of_bytes_is_the_known_digest() {
    assert_eq!(
        hash(b"abc"),
        from_hex("ba7816bf8f01cfea414140de5dae2223b00361a396177a9cb410ff61f20015ad")
    );
    assert_eq!(hash(b"").len(), 32);
    assert_eq!(
        hash(b"hello world"),
        account_ledger::crypto::Hash::from("hello world".as_bytes()).0.to_vec()
    );
}

#[test]
fn generated_pair_has_the_fixed_widths_and_signs() {
    let (private_key, public_key) = generate_keypair();
    assert_eq!(private_key.len(), 32);
    assert_eq!(public_key.len(), 33);
    assert!(is_valid_public_key(&public_key));
    let digest = hash(b"message");
    let signature = sign_hash(&digest, &private_key);
    assert_eq!(signature.len(), 64);
    assert!(verify_signature(&public_key, &digest, &signature));
}

#[test]
fn signature_of_the_key_one_verifies_under_the_generator() {
    let digest = hash(b"message");
    let signature = sign_hash(&digest, &key_one());
    assert!(verify_signature(&generator(), &digest, &signature));
    assert!(!verify_signature(&generator(), &hash(b"another"), &signature));
    let (_, other) = generate_keypair();
    assert!(!verify_signature(&other, &digest, &signature));
}

#[test]
fn wrong_lengths_are_rejected_without_panic() {
    let digest = hash(b"message");
    let signature = sign_hash(&digest, &key_one());
    assert!(!verify_signature(&generator()[..32], &digest, &signature));
    assert!(!verify_signature(&[], &digest, &signature));
    assert!(!verify_signature(&generator(), &digest[..31], &signature));
    assert!(!verify_signature(&generator(), &[], &signature));
    assert!(!verify_signature(&generator(), &digest, &signature[..63]));
    assert!(!verify_signature(&generator(), &digest, &[]));
    assert!(!verify_signature(&generator(), &digest, &[0u8; 64]));
    let mut longer = signature.clone();
    longer.push(0);
    assert!(!verify_signature(&generator(), &digest, &longer));
}

#[test]
fn public_keys_are_told_from_other_bytes() {
    assert!(is_valid_public_key(&generator()));
    let mut odd = generator();
    odd[0] = 3;
    assert!(is_valid_public_key(&odd));
    assert!(!is_valid_public_key(&[]));
    assert!(!is_valid_public_key(&[0u8; 33]));
    assert!(!is_valid_public_key(&generator()[..32]));
    let mut no_prefix = generator();
    no_prefix[0] = 5;
    assert!(!is_valid_public_key(&no_prefix));
    // No point of the curve has the x-coordinate 5.
    let mut off_curve = vec![0u8; 33];
    off_curve[0] = 2;
    off_curve[32] = 5;
    assert!(!is_valid_public_key(&off_curve));
}
