//! The cryptographic primitives on plain byte strings of any length, for
//! callers that hold keys, digests and signatures as they came off the wire.

use crate::crypto::ecdsa_accepts;
use crate::crypto::ecdsa_sign;
use crate::crypto::ecdsa_signature;
use crate::crypto::ecdsa_verify;
use crate::crypto::is_public_key;
use crate::crypto::is_secret_key;
use crate::crypto::public_key_of;
use crate::crypto::public_key_parses;
use crate::crypto::sha256;
use crate::crypto::sha256_digest;
use vstd::prelude::*;
use vstd::slice::slice_to_vec;

verus! {

/// The SHA-256 digest of `data`, 32 bytes.
pub fn hash(data: &[u8]) -> (digest: Vec<u8>)
    ensures
        digest@ == sha256(data@),
        digest@.len() == 32,
{
    let digest = sha256_digest(data);
    slice_to_vec(&digest)
}

/// The compact ECDSA signature of a 32-byte digest under a secret key, which
/// `crypto::is_valid_secret_key` tells from other bytes. `verify_signature`
/// accepts the signature under the public key that belongs to the secret key.
pub fn sign_hash(hash: &[u8], private_key: &[u8]) -> (signature: Vec<u8>)
    requires
        hash@.len() == 32,
        is_secret_key(private_key@),
    ensures
        signature@ == ecdsa_signature(hash@, private_key@),
        signature@.len() == 64,
        ecdsa_accepts(public_key_of(private_key@), hash@, signature@),
{
    match ecdsa_sign(hash, private_key) {
        Ok(signature) => slice_to_vec(&signature),
        Err(_) => unreached(),
    }
}

/// Whether `signature` verifies for `hash` under `public_key`. Bytes of a
/// wrong length, bytes that are no curve point and bytes that are no
/// signature are rejected like any other mismatch.
pub fn verify_signature(public_key: &[u8], hash: &[u8], signature: &[u8]) -> (valid: bool)
    ensures
        valid == ecdsa_accepts(public_key@, hash@, signature@),
        hash@.len() != 32 || signature@.len() != 64 ==> !valid,
{
    ecdsa_verify(public_key, hash, signature).is_ok()
}

/// A fresh key pair from the operating system's random source: the 32 bytes
/// of the secret key and the 33 bytes of its compressed public key.
pub fn generate_keypair() -> (pair: (Vec<u8>, Vec<u8>))
    ensures
        is_secret_key(pair.0@),
        pair.1@ == public_key_of(pair.0@),
        pair.1@.len() == 33,
{
    let (private_key, public_key) = crate::crypto::generate_keypair();
    (slice_to_vec(private_key.as_bytes()), slice_to_vec(public_key.as_bytes()))
}

/// Whether `public_key` is the encoding of a point of the curve.
pub fn is_valid_public_key(public_key: &[u8]) -> (valid: bool)
    ensures
        valid == is_public_key(public_key@),
{
    public_key_parses(public_key)
}

} // verus!
