//! Signed transfer intents.

use crate::crypto::ecdsa_accepts;
use crate::crypto::ecdsa_signature;
use crate::crypto::lemma_public_key_by_bytes;
use crate::crypto::lemma_signature_by_bytes;
use crate::crypto::public_key_of;
use crate::crypto::sha256;
use crate::crypto::sign_hash;
use crate::crypto::verify_signature;
use crate::crypto::zeros;
use crate::crypto::CryptoError;
use crate::crypto::PrivateKey;
use crate::crypto::PublicKey;
use crate::crypto::Signature;
use crate::encoding::append_bytes;
use crate::encoding::be_bytes;
use crate::encoding::lemma_be_bytes_injective;
use crate::encoding::u64_be_bytes;
use vstd::prelude::*;
use vstd::std_specs::cmp::PartialEqSpecImpl;

verus! {

/// What a transaction says: who sends how much to whom, the sender's replay
/// counter at the time, and the sender's signature.
pub struct TransactionView {
    pub from: Seq<u8>,
    pub to: Seq<u8>,
    pub amount: u64,
    pub nonce: u64,
    pub signature: Seq<u8>,
}

impl TransactionView {
    /// The bytes that are hashed and signed: sender, recipient, amount and
    /// nonce, the integers as eight bytes each, most significant first. The
    /// signature is no part of them.
    pub open spec fn payload(self) -> Seq<u8> {
        self.from + self.to + be_bytes(self.amount) + be_bytes(self.nonce)
    }

    /// The digest of the payload.
    pub open spec fn digest(self) -> Seq<u8> {
        sha256(self.payload())
    }

    /// Whether the signature verifies for the digest under the sender's key.
    pub open spec fn is_signed(self) -> bool {
        ecdsa_accepts(self.from, self.digest(), self.signature)
    }

    /// The same transfer, carrying the signature that `private_key` gives it.
    pub open spec fn signed_by(self, private_key: Seq<u8>) -> TransactionView {
        TransactionView { signature: ecdsa_signature(self.digest(), private_key), ..self }
    }
}

/// A transfer of `amount` units from one address to another.
#[derive(Debug, Clone, Copy)]
pub struct Transaction {
    from: PublicKey,
    to: PublicKey,
    amount: u64,
    nonce: u64,
    signature: Signature,
}

impl View for Transaction {
    type V = TransactionView;

    closed spec fn view(&self) -> TransactionView {
        TransactionView {
            from: self.from@,
            to: self.to@,
            amount: self.amount,
            nonce: self.nonce,
            signature: self.signature@,
        }
    }
}

/// What each of a sequence of transactions says.
pub open spec fn transaction_views(transactions: Seq<Transaction>) -> Seq<TransactionView> {
    Seq::new(transactions.len(), |i: int| transactions[i]@)
}

/// The digests of a sequence of transfers, in their order.
pub open spec fn transaction_digests(transactions: Seq<TransactionView>) -> Seq<Seq<u8>> {
    Seq::new(transactions.len(), |i: int| transactions[i].digest())
}

/// Whether every transfer of a sequence carries a signature that verifies.
pub open spec fn all_signed(transactions: Seq<TransactionView>) -> bool {
    forall|i: int| 0 <= i < transactions.len() ==> (#[trigger] transactions[i]).is_signed()
}

impl PartialEq for Transaction {
    fn eq(&self, other: &Transaction) -> (same: bool) {
        self.from == other.from && self.to == other.to && self.amount == other.amount && self.nonce
            == other.nonce && self.signature == other.signature
    }
}

impl PartialEqSpecImpl for Transaction {
    open spec fn obeys_eq_spec() -> bool {
        true
    }

    open spec fn eq_spec(&self, other: &Transaction) -> bool {
        *self == *other
    }
}

/// Another amount gives other bytes to hash.
pub proof fn lemma_amount_changes_payload(tx: TransactionView, amount: u64)
    requires
        amount != tx.amount,
    ensures
        (TransactionView { amount, ..tx }).payload() != tx.payload(),
{
    let changed = TransactionView { amount, ..tx };
    let start = tx.from.len() + tx.to.len();
    lemma_be_bytes_injective(amount, tx.amount);
    if changed.payload() == tx.payload() {
        assert forall|j: int| 0 <= j < 8 implies be_bytes(amount)[j] == be_bytes(tx.amount)[j] by {
            assert(changed.payload()[start + j] == be_bytes(amount)[j]);
            assert(tx.payload()[start + j] == be_bytes(tx.amount)[j]);
        }
        assert(be_bytes(amount) =~= be_bytes(tx.amount));
    }
}

/// Two transactions that say the same are the same transaction.
pub proof fn lemma_transaction_by_view(a: Transaction, b: Transaction)
    ensures
        a@ == b@ <==> a == b,
{
    if a@ == b@ {
        lemma_public_key_by_bytes(a.from, b.from);
        lemma_public_key_by_bytes(a.to, b.to);
        lemma_signature_by_bytes(a.signature, b.signature);
    }
}

impl Transaction {
    /// An unsigned transfer: it carries the all-zero signature.
    pub fn new(from: &PublicKey, to: &PublicKey, amount: u64, nonce: u64) -> (tx: Transaction)
        ensures
            tx@ == (TransactionView {
                from: from@,
                to: to@,
                amount,
                nonce,
                signature: zeros(64),
            }),
    {
        Transaction { from: *from, to: *to, amount, nonce, signature: Signature::default() }
    }

    /// A transfer that carries a signature made elsewhere. The signature has
    /// to verify, else the transfer is refused.
    pub fn new_signed(
        from: &PublicKey,
        to: &PublicKey,
        amount: u64,
        nonce: u64,
        signature: &Signature,
    ) -> (res: Result<Transaction, CryptoError>)
        ensures
            ({
                let wanted = TransactionView {
                    from: from@,
                    to: to@,
                    amount,
                    nonce,
                    signature: signature@,
                };
                match res {
                    Ok(tx) => tx@ == wanted && wanted.is_signed(),
                    Err(e) => e == CryptoError::InvalidSignature && !wanted.is_signed(),
                }
            }),
    {
        let tx = Transaction { from: *from, to: *to, amount, nonce, signature: *signature };
        match tx.verify() {
            Ok(()) => Ok(tx),
            Err(e) => Err(e),
        }
    }

    /// A transfer signed with `private_key`. Where that is the sender's own
    /// key, the transfer verifies.
    pub fn new_and_sign(
        from: &PublicKey,
        to: &PublicKey,
        amount: u64,
        nonce: u64,
        private_key: &PrivateKey,
    ) -> (res: Result<Transaction, CryptoError>)
        ensures
            res matches Ok(tx) && tx@ == (TransactionView {
                from: from@,
                to: to@,
                amount,
                nonce,
                signature: zeros(64),
            }).signed_by(private_key@),
            res matches Ok(tx) && (from@ == public_key_of(private_key@) ==> tx@.is_signed()),
    {
        let mut tx = Transaction::new(from, to, amount, nonce);
        match tx.sign(private_key) {
            Ok(()) => Ok(tx),
            Err(e) => Err(e),
        }
    }

    /// The sender.
    pub fn from(&self) -> (from: PublicKey)
        ensures
            from@ == self@.from,
    {
        self.from
    }

    /// The recipient.
    pub fn to(&self) -> (to: PublicKey)
        ensures
            to@ == self@.to,
    {
        self.to
    }

    /// The units to move.
    pub fn amount(&self) -> (amount: u64)
        ensures
            amount == self@.amount,
    {
        self.amount
    }

    /// The sender's replay counter that the transfer was made for.
    pub fn nonce(&self) -> (nonce: u64)
        ensures
            nonce == self@.nonce,
    {
        self.nonce
    }

    /// The signature that the transfer carries.
    pub fn signature(&self) -> (signature: Signature)
        ensures
            signature@ == self@.signature,
    {
        self.signature
    }

    /// The digest of the transfer. It does not depend on the signature.
    pub fn hash(&self) -> (hash: crate::crypto::Hash)
        ensures
            hash@ == self@.digest(),
    {
        let mut data: Vec<u8> = Vec::new();
        append_bytes(&mut data, self.from.as_bytes());
        append_bytes(&mut data, self.to.as_bytes());
        append_bytes(&mut data, &u64_be_bytes(self.amount));
        append_bytes(&mut data, &u64_be_bytes(self.nonce));
        assert(data@ =~= self@.payload());
        crate::crypto::Hash::from(data.as_slice())
    }

    /// Signs the transfer with `private_key`, in place of whatever signature
    /// it carried. Where that is the sender's own key, the transfer verifies
    /// afterwards.
    pub fn sign(&mut self, private_key: &PrivateKey) -> (res: Result<(), CryptoError>)
        ensures
            res is Ok,
            final(self)@ == old(self)@.signed_by(private_key@),
            old(self)@.from == public_key_of(private_key@) ==> final(self)@.is_signed(),
    {
        let hash = self.hash();
        match sign_hash(&hash, private_key) {
            Ok(signature) => {
                self.signature = signature;
                Ok(())
            },
            Err(e) => Err(e),
        }
    }

    /// Checks the signature against the digest and the sender's key.
    pub fn verify(&self) -> (res: Result<(), CryptoError>)
        ensures
            res is Ok <==> self@.is_signed(),
            res is Err ==> res == Err::<(), CryptoError>(CryptoError::InvalidSignature),
    {
        let hash = self.hash();
        verify_signature(&self.from, &hash, &self.signature)
    }
}

} // verus!
