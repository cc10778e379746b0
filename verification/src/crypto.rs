//! Identity and integrity primitives: SHA-256 digests, secp256k1 key pairs,
//! ECDSA signatures over digests and their verification.
//!
//! The digest and the curve arithmetic are computed by the `secp256k1` crate.
//! Each call into it is a private function of this module whose contract is
//! trusted; the results that cannot be written down in a few lines are named
//! by the uninterpreted functions below.

use crate::encoding::be_value;
use crate::encoding::lemma_be_value_order;
use crate::encoding::lemma_be_value_step;
use secp256k1::hashes::Hash as Digest;
use vstd::prelude::*;
use vstd::std_specs::cmp::PartialEqSpecImpl;
use vstd::std_specs::convert::FromSpecImpl;

verus! {

/// The SHA-256 digest of `data`.
pub uninterp spec fn sha256(data: Seq<u8>) -> Seq<u8>;

/// The compressed encoding of the curve point that belongs to `secret_key`.
pub uninterp spec fn public_key_of(secret_key: Seq<u8>) -> Seq<u8>;

/// The compact encoding of the ECDSA signature, with the nonce of RFC 6979,
/// of `digest` under `secret_key`.
pub uninterp spec fn ecdsa_signature(digest: Seq<u8>, secret_key: Seq<u8>) -> Seq<u8>;

/// Whether `signature` verifies as an ECDSA signature of `digest` under
/// `public_key`.
pub uninterp spec fn ecdsa_accepts(public_key: Seq<u8>, digest: Seq<u8>, signature: Seq<u8>) -> bool;

/// Whether `bytes` are the encoding, compressed or not, of a point of the
/// curve.
pub uninterp spec fn is_public_key(bytes: Seq<u8>) -> bool;

/// `n` zero bytes.
pub open spec fn zeros(n: nat) -> Seq<u8> {
    Seq::new(n, |i: int| 0u8)
}

/// The order of the secp256k1 group, as 32 bytes, most significant first.
pub open spec fn curve_order_bytes() -> Seq<u8> {
    seq![
        0xffu8, 0xff, 0xff, 0xff, 0xff, 0xff, 0xff, 0xff,
        0xff, 0xff, 0xff, 0xff, 0xff, 0xff, 0xff, 0xfe,
        0xba, 0xae, 0xdc, 0xe6, 0xaf, 0x48, 0xa0, 0x3b,
        0xbf, 0xd2, 0x5e, 0x8c, 0xd0, 0x36, 0x41, 0x41,
    ]
}

/// The order of the secp256k1 group.
pub open spec fn curve_order() -> nat {
    be_value(curve_order_bytes())
}

/// A secret key is 32 bytes that spell a number from 1 up to the group order
/// less one.
pub open spec fn is_secret_key(bytes: Seq<u8>) -> bool {
    bytes.len() == 32 && 0 < be_value(bytes) < curve_order()
}

/// A 32-byte digest. The all-zero value stands for "no predecessor".
#[derive(Debug, Clone, Copy)]
pub struct Hash(pub [u8; 32]);

/// A secret scalar. Every value of this type is a valid secret key.
#[derive(Debug, Clone, Copy)]
pub struct PrivateKey([u8; 32]);

/// A compressed curve point, which doubles as an account address.
#[derive(Debug, Clone, Copy, Hash)]
pub struct PublicKey(pub [u8; 33]);

/// A compact ECDSA signature. The all-zero value is never accepted.
#[derive(Debug, Clone, Copy)]
pub struct Signature(pub [u8; 64]);

/// Why a cryptographic check failed.
#[derive(Debug, Clone, Copy, PartialEq, Eq, Structural)]
pub enum CryptoError {
    /// The signature does not verify for the digest under the public key.
    InvalidSignature,
}

#[verifier::external_type_specification]
#[verifier::external_body]
pub struct ExSecpError(secp256k1::Error);

impl View for Hash {
    type V = Seq<u8>;

    open spec fn view(&self) -> Seq<u8> {
        self.0@
    }
}

impl View for PrivateKey {
    type V = Seq<u8>;

    closed spec fn view(&self) -> Seq<u8> {
        self.0@
    }
}

impl View for PublicKey {
    type V = Seq<u8>;

    open spec fn view(&self) -> Seq<u8> {
        self.0@
    }
}

impl View for Signature {
    type V = Seq<u8>;

    open spec fn view(&self) -> Seq<u8> {
        self.0@
    }
}

/// Whether two byte strings of length `n` hold the same bytes.
fn bytes_equal(a: &[u8], b: &[u8], n: usize) -> (same: bool)
    requires
        a@.len() == n,
        b@.len() == n,
    ensures
        same == (a@ == b@),
{
    let mut i: usize = 0;
    while i < n
        invariant
            i <= n,
            a@.len() == n,
            b@.len() == n,
            forall|j: int| 0 <= j < i ==> a@[j] == b@[j],
        decreases n - i,
    {
        if a[i] != b[i] {
            return false;
        }
        i += 1;
    }
    assert(a@ =~= b@);
    true
}

impl PartialEq for Hash {
    fn eq(&self, other: &Hash) -> (same: bool) {
        let same = bytes_equal(&self.0, &other.0, 32);
        assert(self.0@ == other.0@ ==> self.0 =~= other.0);
        same
    }
}

impl PartialEqSpecImpl for Hash {
    open spec fn obeys_eq_spec() -> bool {
        true
    }

    open spec fn eq_spec(&self, other: &Hash) -> bool {
        *self == *other
    }
}

impl Eq for Hash {

}

impl PartialEq for PrivateKey {
    fn eq(&self, other: &PrivateKey) -> (same: bool) {
        let same = bytes_equal(&self.0, &other.0, 32);
        assert(self.0@ == other.0@ ==> self.0 =~= other.0);
        same
    }
}

impl PartialEqSpecImpl for PrivateKey {
    open spec fn obeys_eq_spec() -> bool {
        true
    }

    open spec fn eq_spec(&self, other: &PrivateKey) -> bool {
        *self == *other
    }
}

impl Eq for PrivateKey {

}

impl PartialEq for PublicKey {
    fn eq(&self, other: &PublicKey) -> (same: bool) {
        let same = bytes_equal(&self.0, &other.0, 33);
        assert(self.0@ == other.0@ ==> self.0 =~= other.0);
        same
    }
}

impl PartialEqSpecImpl for PublicKey {
    open spec fn obeys_eq_spec() -> bool {
        true
    }

    open spec fn eq_spec(&self, other: &PublicKey) -> bool {
        *self == *other
    }
}

impl Eq for PublicKey {

}

impl PartialEq for Signature {
    fn eq(&self, other: &Signature) -> (same: bool) {
        let same = bytes_equal(&self.0, &other.0, 64);
        assert(self.0@ == other.0@ ==> self.0 =~= other.0);
        same
    }
}

impl PartialEqSpecImpl for Signature {
    open spec fn obeys_eq_spec() -> bool {
        true
    }

    open spec fn eq_spec(&self, other: &Signature) -> bool {
        *self == *other
    }
}

impl Eq for Signature {

}

/// The digest whose bytes are `bytes`, where there are 32 of them.
pub open spec fn hash_of_bytes(bytes: Seq<u8>) -> Hash {
    choose|hash: Hash| hash@ == bytes
}

/// The public key whose bytes are `bytes`, where there are 33 of them.
pub open spec fn public_key_of_bytes(bytes: Seq<u8>) -> PublicKey {
    choose|public_key: PublicKey| public_key@ == bytes
}

/// Two digests with the same bytes are the same digest.
pub proof fn lemma_hash_by_bytes(a: Hash, b: Hash)
    ensures
        a@.len() == 32,
        a@ == b@ <==> a == b,
{
    if a@ == b@ {
        assert(a.0 =~= b.0);
    }
}

/// Two public keys with the same bytes are the same key.
pub proof fn lemma_public_key_by_bytes(a: PublicKey, b: PublicKey)
    ensures
        a@.len() == 33,
        a@ == b@ <==> a == b,
{
    if a@ == b@ {
        assert(a.0 =~= b.0);
    }
}

/// Two signatures with the same bytes are the same signature.
pub proof fn lemma_signature_by_bytes(a: Signature, b: Signature)
    ensures
        a@.len() == 64,
        a@ == b@ <==> a == b,
{
    if a@ == b@ {
        assert(a.0 =~= b.0);
    }
}

impl Default for Hash {
    /// The all-zero digest.
    fn default() -> (hash: Hash)
        ensures
            hash@ == zeros(32),
    {
        let hash = Hash([0u8; 32]);
        assert(hash@ =~= zeros(32));
        hash
    }
}

impl Default for Signature {
    /// The all-zero signature, which no key and digest accept.
    fn default() -> (signature: Signature)
        ensures
            signature@ == zeros(64),
    {
        let signature = Signature([0u8; 64]);
        assert(signature@ =~= zeros(64));
        signature
    }
}

/// Calls `sha256::Hash::hash` of `bitcoin_hashes` (reached as
/// `secp256k1::hashes`) and takes the digest's byte array. Trusted: the
/// 32 bytes are the SHA-256 digest of `data`.
#[verifier::external_body]
pub(crate) fn sha256_digest(data: &[u8]) -> (digest: [u8; 32])
    ensures
        digest@ == sha256(data@),
{
    secp256k1::hashes::sha256::Hash::hash(data).to_byte_array()
}

/// Calls `PublicKey::from_secret_key` on the key that `SecretKey::from_slice`
/// parses, and `PublicKey::serialize` on the result. Trusted: parsing fails
/// exactly on bytes that are no secret key, and otherwise the 33 bytes are
/// the compressed point of that key.
#[verifier::external_body]
fn derive_public_key(secret_key: &[u8; 32]) -> (res: Result<[u8; 33], secp256k1::Error>)
    ensures
        res is Ok <==> is_secret_key(secret_key@),
        res matches Ok(public_key) ==> public_key@ == public_key_of(secret_key@),
{
    let secp = secp256k1::Secp256k1::new();
    let secret_key = secp256k1::SecretKey::from_slice(secret_key)?;
    Ok(secp256k1::PublicKey::from_secret_key(&secp, &secret_key).serialize())
}

/// Calls `Secp256k1::sign_ecdsa` on the message and key that
/// `Message::from_digest_slice` and `SecretKey::from_slice` parse, and
/// `Signature::serialize_compact` on the result. Trusted: parsing fails
/// exactly where the digest is not 32 bytes long or the key bytes are no
/// secret key; otherwise the 64 bytes are the deterministic signature of the
/// digest, and, as the documentation of `verify_ecdsa` shows, verification
/// under the key's own public key accepts them.
#[verifier::external_body]
pub(crate) fn ecdsa_sign(digest: &[u8], secret_key: &[u8]) -> (res: Result<[u8; 64], secp256k1::Error>)
    ensures
        res is Ok <==> (digest@.len() == 32 && is_secret_key(secret_key@)),
        res matches Ok(signature) ==> signature@ == ecdsa_signature(digest@, secret_key@)
            && ecdsa_accepts(public_key_of(secret_key@), digest@, signature@),
{
    let secp = secp256k1::Secp256k1::new();
    let message = secp256k1::Message::from_digest_slice(digest)?;
    let secret_key = secp256k1::SecretKey::from_slice(secret_key)?;
    Ok(secp.sign_ecdsa(&message, &secret_key).serialize_compact())
}

/// Calls `Secp256k1::verify_ecdsa` on what `PublicKey::from_slice`,
/// `Message::from_digest_slice` and `ecdsa::Signature::from_compact` parse.
/// Trusted: the call succeeds exactly when the signature verifies, which it
/// never does where the digest is not 32 or the signature not 64 bytes long,
/// nor for the all-zero signature.
#[verifier::external_body]
pub(crate) fn ecdsa_verify(public_key: &[u8], digest: &[u8], signature: &[u8]) -> (res: Result<
    (),
    secp256k1::Error,
>)
    ensures
        res is Ok <==> ecdsa_accepts(public_key@, digest@, signature@),
        (digest@.len() != 32 || signature@.len() != 64) ==> res is Err,
        signature@ == zeros(64) ==> res is Err,
{
    let secp = secp256k1::Secp256k1::new();
    let public_key = secp256k1::PublicKey::from_slice(public_key)?;
    let message = secp256k1::Message::from_digest_slice(digest)?;
    let signature = secp256k1::ecdsa::Signature::from_compact(signature)?;
    secp.verify_ecdsa(&message, &signature, &public_key)
}

/// Calls `PublicKey::from_slice` and tells whether it parsed the bytes.
/// Trusted: it does so exactly for the encodings of curve points.
#[verifier::external_body]
pub(crate) fn public_key_parses(bytes: &[u8]) -> (parses: bool)
    ensures
        parses == is_public_key(bytes@),
{
    secp256k1::PublicKey::from_slice(bytes).is_ok()
}

/// Calls `Secp256k1::generate_keypair` with the operating system's random
/// source and takes the bytes of both keys. Trusted: whatever was drawn, the
/// first is a secret key and the second its compressed point.
#[verifier::external_body]
fn random_keypair() -> (pair: ([u8; 32], [u8; 33]))
    ensures
        is_secret_key(pair.0@),
        pair.1@ == public_key_of(pair.0@),
{
    let secp = secp256k1::Secp256k1::new();
    let (secret_key, public_key) = secp.generate_keypair(&mut secp256k1::rand::rngs::OsRng);
    (secret_key.secret_bytes(), public_key.serialize())
}

/// Calls `SecretKey::from_hashed_data` with SHA-256, then
/// `PublicKey::from_secret_key`, and takes the bytes of both keys. The outside
/// function panics where the digest is no secret key. Trusted: the secret key
/// is the digest of `seed` and the public key its compressed point.
#[verifier::external_body]
fn hashed_keypair(seed: &[u8]) -> (pair: ([u8; 32], [u8; 33]))
    requires
        is_secret_key(sha256(seed@)),
    ensures
        pair.0@ == sha256(seed@),
        pair.1@ == public_key_of(pair.0@),
{
    let secp = secp256k1::Secp256k1::new();
    let secret_key = secp256k1::SecretKey::from_hashed_data::<secp256k1::hashes::sha256::Hash>(seed);
    let public_key = secp256k1::PublicKey::from_secret_key(&secp, &secret_key);
    (secret_key.secret_bytes(), public_key.serialize())
}

impl From<&[u8]> for Hash {
    /// The SHA-256 digest of `data`.
    fn from(data: &[u8]) -> (hash: Hash)
        ensures
            hash@ == sha256(data@),
    {
        let hash = Hash(sha256_digest(data));
        proof {
            lemma_hash_by_bytes(hash, hash_of_bytes(sha256(data@)));
        }
        hash
    }
}

impl FromSpecImpl<&[u8]> for Hash {
    open spec fn obeys_from_spec() -> bool {
        true
    }

    open spec fn from_spec(data: &[u8]) -> Hash {
        hash_of_bytes(sha256(data@))
    }
}

impl Hash {
    /// The 32 bytes of the digest.
    pub fn as_bytes(&self) -> (bytes: &[u8; 32])
        ensures
            bytes@ == self@,
    {
        &self.0
    }

    /// Whether this is the all-zero digest.
    pub fn is_zero(&self) -> (zero: bool)
        ensures
            zero == (self@ == zeros(32)),
    {
        let zero = Hash::default();
        bytes_equal(&self.0, &zero.0, 32)
    }
}

impl PrivateKey {
    #[verifier::type_invariant]
    spec fn well_formed(self) -> bool {
        is_secret_key(self.0@)
    }

    /// The 32 bytes of the secret scalar.
    pub fn as_bytes(&self) -> (bytes: &[u8; 32])
        ensures
            bytes@ == self@,
            is_secret_key(self@),
    {
        proof {
            use_type_invariant(self);
        }
        &self.0
    }
}

impl PublicKey {
    /// The 33 bytes of the compressed point.
    pub fn as_bytes(&self) -> (bytes: &[u8; 33])
        ensures
            bytes@ == self@,
    {
        &self.0
    }
}

impl Signature {
    /// The 64 bytes of the compact encoding.
    pub fn as_bytes(&self) -> (bytes: &[u8; 64])
        ensures
            bytes@ == self@,
    {
        &self.0
    }
}

impl From<&PrivateKey> for PublicKey {
    /// The public key that belongs to `key`.
    fn from(key: &PrivateKey) -> (public_key: PublicKey)
        ensures
            public_key@ == public_key_of(key@),
    {
        proof {
            use_type_invariant(key);
        }
        match derive_public_key(&key.0) {
            Ok(bytes) => {
                let public_key = PublicKey(bytes);
                proof {
                    lemma_public_key_by_bytes(public_key, public_key_of_bytes(public_key_of(key@)));
                }
                public_key
            },
            Err(_) => unreached(),
        }
    }
}

impl FromSpecImpl<&PrivateKey> for PublicKey {
    open spec fn obeys_from_spec() -> bool {
        true
    }

    open spec fn from_spec(key: &PrivateKey) -> PublicKey {
        public_key_of_bytes(public_key_of(key@))
    }
}

/// The bytes of the group order.
fn order_bytes() -> (bytes: [u8; 32])
    ensures
        bytes@ == curve_order_bytes(),
{
    let bytes = [
        0xffu8, 0xff, 0xff, 0xff, 0xff, 0xff, 0xff, 0xff,
        0xff, 0xff, 0xff, 0xff, 0xff, 0xff, 0xff, 0xfe,
        0xba, 0xae, 0xdc, 0xe6, 0xaf, 0x48, 0xa0, 0x3b,
        0xbf, 0xd2, 0x5e, 0x8c, 0xd0, 0x36, 0x41, 0x41,
    ];
    assert(bytes@ =~= curve_order_bytes());
    bytes
}

/// Whether `bytes` are a secret key: 32 bytes that spell neither zero nor a
/// number from the group order on.
pub fn is_valid_secret_key(bytes: &[u8]) -> (valid: bool)
    ensures
        valid == is_secret_key(bytes@),
{
    if bytes.len() != 32 {
        return false;
    }
    let order = order_bytes();
    let mut positive = false;
    let mut i: usize = 0;
    while i < 32
        invariant
            i <= 32,
            bytes@.len() == 32,
            order@ == curve_order_bytes(),
            positive == (be_value(bytes@.take(i as int)) > 0),
            bytes@.take(i as int) == order@.take(i as int),
        decreases 32 - i,
    {
        proof {
            lemma_be_value_step(bytes@, i as int);
            lemma_be_value_step(order@, i as int);
        }
        if bytes[i] < order[i] {
            proof {
                lemma_be_value_order(bytes@, order@, i + 1);
            }
            let later = any_nonzero(bytes, i + 1);
            return positive || bytes[i] > 0 || later;
        }
        if bytes[i] > order[i] {
            proof {
                lemma_be_value_order(order@, bytes@, i + 1);
            }
            return false;
        }
        positive = positive || bytes[i] > 0;
        assert(bytes@.take(i + 1) =~= order@.take(i + 1));
        i += 1;
    }
    assert(bytes@ =~= bytes@.take(32));
    assert(order@ =~= order@.take(32));
    false
}

/// Whether a byte from position `start` on is not zero.
fn any_nonzero(bytes: &[u8], start: usize) -> (found: bool)
    requires
        start <= bytes@.len(),
    ensures
        found || be_value(bytes@.take(start as int)) > 0 <==> be_value(bytes@) > 0,
{
    let mut found = false;
    let mut i: usize = start;
    while i < bytes.len()
        invariant
            start <= i <= bytes@.len(),
            found || be_value(bytes@.take(start as int)) > 0 <==> be_value(bytes@.take(i as int))
                > 0,
        decreases bytes.len() - i,
    {
        proof {
            lemma_be_value_step(bytes@, i as int);
        }
        found = found || bytes[i] > 0;
        i += 1;
    }
    assert(bytes@ =~= bytes@.take(i as int));
    found
}

/// Signs `hash` with `private_key`. Signing never fails: the signature is the
/// deterministic ECDSA signature of the digest, and `verify_signature` accepts
/// it under the public key that belongs to `private_key`.
pub fn sign_hash(hash: &Hash, private_key: &PrivateKey) -> (res: Result<Signature, CryptoError>)
    ensures
        res matches Ok(signature) && signature@ == ecdsa_signature(hash@, private_key@)
            && ecdsa_accepts(public_key_of(private_key@), hash@, signature@),
{
    proof {
        use_type_invariant(private_key);
    }
    match ecdsa_sign(&hash.0, &private_key.0) {
        Ok(bytes) => Ok(Signature(bytes)),
        Err(_) => Err(CryptoError::InvalidSignature),
    }
}

/// Checks `signature` against `hash` and `public_key`. Succeeds exactly when
/// the signature verifies; a malformed key, a malformed signature and the
/// all-zero signature are rejected like any other mismatch.
pub fn verify_signature(public_key: &PublicKey, hash: &Hash, signature: &Signature) -> (res: Result<
    (),
    CryptoError,
>)
    ensures
        res is Ok <==> ecdsa_accepts(public_key@, hash@, signature@),
        res is Err ==> res == Err::<(), CryptoError>(CryptoError::InvalidSignature),
        signature@ == zeros(64) ==> res is Err,
{
    match ecdsa_verify(&public_key.0, &hash.0, &signature.0) {
        Ok(()) => Ok(()),
        Err(_) => Err(CryptoError::InvalidSignature),
    }
}

/// Draws a fresh key pair from the operating system's random source. Whatever
/// is drawn, the public key is the one that belongs to the private key.
pub fn generate_keypair() -> (pair: (PrivateKey, PublicKey))
    ensures
        pair.1@ == public_key_of(pair.0@),
        is_secret_key(pair.0@),
{
    let (secret_key, public_key) = random_keypair();
    (PrivateKey(secret_key), PublicKey(public_key))
}

/// The key pair whose secret scalar is the SHA-256 digest of `secret`. The
/// same seed always gives the same pair. The digest has to be a secret key;
/// `try_generate_keypair_from_secret` tests that first.
pub fn generate_keypair_from_secret(secret: &[u8]) -> (pair: (PrivateKey, PublicKey))
    requires
        is_secret_key(sha256(secret@)),
    ensures
        pair.0@ == sha256(secret@),
        pair.1@ == public_key_of(pair.0@),
{
    let (secret_key, public_key) = hashed_keypair(secret);
    (PrivateKey(secret_key), PublicKey(public_key))
}

/// As `generate_keypair_from_secret`, for any seed: `None` where the digest of
/// the seed is zero or not below the group order, and so is no secret key.
pub fn try_generate_keypair_from_secret(secret: &[u8]) -> (res: Option<(PrivateKey, PublicKey)>)
    ensures
        res is Some <==> is_secret_key(sha256(secret@)),
        res matches Some(pair) ==> pair.0@ == sha256(secret@) && pair.1@ == public_key_of(pair.0@),
{
    let digest = sha256_digest(secret);
    if is_valid_secret_key(&digest) {
        Some(generate_keypair_from_secret(secret))
    } else {
        None
    }
}

} // verus!
