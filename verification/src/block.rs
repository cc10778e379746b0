//! Blocks: ordered batches of transfers, committed to by a Merkle root and
//! chained by digests. A `BlockBuilder` gathers transfers; a `Block` is what
//! it becomes once the timestamp, the root and the digest are fixed.

use crate::clock::unix_time_now;
use crate::crypto::lemma_hash_by_bytes;
use crate::crypto::sha256;
use crate::crypto::zeros;
use crate::encoding::append_bytes;
use crate::encoding::be_bytes;
use crate::encoding::u64_be_bytes;
use crate::merkle::digests;
use crate::merkle::lemma_root_binds_digests;
use crate::merkle::merkle_root;
use crate::merkle::root_hash;
use crate::merkle::sha256_collision;
use crate::merkle::some_pair_collides;
use crate::transaction::all_signed;
use crate::transaction::transaction_digests;
use crate::transaction::lemma_amount_changes_payload;
use crate::transaction::lemma_transaction_by_view;
use crate::transaction::transaction_views;
use crate::transaction::Transaction;
use crate::transaction::TransactionView;
use vstd::prelude::*;
use vstd::std_specs::cmp::PartialEqSpecImpl;
use vstd::std_specs::convert::FromSpecImpl;

verus! {

/// Why a block was refused.
#[derive(Debug, Clone, Copy, PartialEq, Eq, Structural)]
pub enum BlockError {
    /// A genesis block needs at least one transfer.
    EmptyGenesis,
    /// A transfer offered for the genesis block does not verify.
    InvalidTransaction,
    /// The stored root is not the Merkle root of the transfers.
    InvalidTransactionsRoot,
    /// The stored digest is not the digest of the stored fields.
    InvalidBlockHash,
    /// A transfer of the block does not verify.
    InvalidSignature,
}

/// The Merkle root of the digests of `transactions`, in their order.
pub open spec fn root_of(transactions: Seq<TransactionView>) -> Seq<u8> {
    merkle_root(transaction_digests(transactions))
}

/// The digest that commits to a block: SHA-256 of the index and the
/// timestamp, eight bytes each and most significant first, followed by the
/// previous block's digest and the root of the transfers.
pub open spec fn block_digest(
    index: u64,
    timestamp: u64,
    previous_hash: Seq<u8>,
    transactions_root: Seq<u8>,
) -> Seq<u8> {
    sha256(be_bytes(index) + be_bytes(timestamp) + previous_hash + transactions_root)
}

/// What a pending block holds.
pub struct BuilderView {
    pub index: u64,
    pub previous_hash: Seq<u8>,
    pub transactions: Seq<TransactionView>,
}

/// What a block holds.
pub struct BlockView {
    pub index: u64,
    pub timestamp: u64,
    pub previous_hash: Seq<u8>,
    pub transactions_root: Seq<u8>,
    pub transactions: Seq<TransactionView>,
    pub hash: Seq<u8>,
}

impl BuilderView {
    /// The pending block that `BlockBuilder::new` gives.
    pub open spec fn empty(index: u64, previous_hash: Seq<u8>) -> BuilderView {
        BuilderView { index, previous_hash, transactions: Seq::empty() }
    }

    /// The digest that the block would have if it were built at `timestamp`.
    pub open spec fn digest(self, timestamp: u64) -> Seq<u8> {
        block_digest(self.index, timestamp, self.previous_hash, root_of(self.transactions))
    }

    /// The block that building at `timestamp` gives.
    pub open spec fn sealed(self, timestamp: u64) -> BlockView {
        BlockView {
            index: self.index,
            timestamp,
            previous_hash: self.previous_hash,
            transactions_root: root_of(self.transactions),
            transactions: self.transactions,
            hash: self.digest(timestamp),
        }
    }
}

impl BlockView {
    /// What verification says of the block: the root is recomputed from the
    /// transfers, then the digest from the stored fields, then every transfer
    /// is checked; the first mismatch is the error.
    pub open spec fn check(self) -> Result<(), BlockError> {
        if self.transactions_root != root_of(self.transactions) {
            Err(BlockError::InvalidTransactionsRoot)
        } else if self.hash != block_digest(
            self.index,
            self.timestamp,
            self.previous_hash,
            self.transactions_root,
        ) {
            Err(BlockError::InvalidBlockHash)
        } else if !all_signed(self.transactions) {
            Err(BlockError::InvalidSignature)
        } else {
            Ok(())
        }
    }

    /// The same block with the amount of the transfer at `position` replaced.
    pub open spec fn with_amount(self, position: int, amount: u64) -> BlockView {
        BlockView {
            transactions: self.transactions.update(
                position,
                TransactionView { amount, ..self.transactions[position] },
            ),
            ..self
        }
    }
}

/// A block in the making: transfers are appended to it until it is built.
#[derive(Debug)]
pub struct BlockBuilder {
    index: u64,
    previous_hash: crate::crypto::Hash,
    transactions: Vec<Transaction>,
}

/// A block: its fields are fixed once and for all when it is made.
#[derive(Debug)]
pub struct Block {
    index: u64,
    timestamp: u64,
    previous_hash: crate::crypto::Hash,
    transactions_root: crate::crypto::Hash,
    transactions: Vec<Transaction>,
    hash: crate::crypto::Hash,
}

impl View for BlockBuilder {
    type V = BuilderView;

    closed spec fn view(&self) -> BuilderView {
        BuilderView {
            index: self.index,
            previous_hash: self.previous_hash@,
            transactions: transaction_views(self.transactions@),
        }
    }
}

impl View for Block {
    type V = BlockView;

    closed spec fn view(&self) -> BlockView {
        BlockView {
            index: self.index,
            timestamp: self.timestamp,
            previous_hash: self.previous_hash@,
            transactions_root: self.transactions_root@,
            transactions: transaction_views(self.transactions@),
            hash: self.hash@,
        }
    }
}

/// A copy of `transactions`.
fn copy_transactions(transactions: &Vec<Transaction>) -> (copy: Vec<Transaction>)
    ensures
        copy@ == transactions@,
{
    let mut copy: Vec<Transaction> = Vec::new();
    let mut i: usize = 0;
    while i < transactions.len()
        invariant
            i <= transactions.len(),
            copy@ == transactions@.take(i as int),
        decreases transactions.len() - i,
    {
        copy.push(transactions[i]);
        assert(transactions@.take(i + 1) =~= transactions@.take(i as int).push(transactions@[i as int]));
        i += 1;
    }
    assert(transactions@.take(i as int) =~= transactions@);
    copy
}

/// The digests of `transactions`, in their order.
fn transaction_hashes(transactions: &Vec<Transaction>) -> (hashes: Vec<crate::crypto::Hash>)
    ensures
        digests(hashes@) == transaction_digests(transaction_views(transactions@)),
{
    let mut hashes: Vec<crate::crypto::Hash> = Vec::new();
    let mut i: usize = 0;
    while i < transactions.len()
        invariant
            i <= transactions.len(),
            hashes.len() == i,
            forall|j: int| 0 <= j < i ==> hashes[j]@ == transactions[j]@.digest(),
        decreases transactions.len() - i,
    {
        hashes.push(transactions[i].hash());
        i += 1;
    }
    assert(digests(hashes@) =~= transaction_digests(transaction_views(transactions@)));
    hashes
}

/// Whether every one of `transactions` verifies.
fn all_verify(transactions: &Vec<Transaction>) -> (ok: bool)
    ensures
        ok == all_signed(transaction_views(transactions@)),
{
    let mut i: usize = 0;
    while i < transactions.len()
        invariant
            i <= transactions.len(),
            forall|j: int| 0 <= j < i ==> (#[trigger] transaction_views(transactions@)[j]).is_signed(),
        decreases transactions.len() - i,
    {
        if transactions[i].verify().is_err() {
            assert(!transaction_views(transactions@)[i as int].is_signed());
            return false;
        }
        i += 1;
    }
    true
}

/// The digest that commits to a block with these fields.
fn digest_of_fields(
    index: u64,
    timestamp: u64,
    previous_hash: &crate::crypto::Hash,
    transactions_root: &crate::crypto::Hash,
) -> (hash: crate::crypto::Hash)
    ensures
        hash@ == block_digest(index, timestamp, previous_hash@, transactions_root@),
{
    let mut data: Vec<u8> = Vec::new();
    append_bytes(&mut data, &u64_be_bytes(index));
    append_bytes(&mut data, &u64_be_bytes(timestamp));
    append_bytes(&mut data, previous_hash.as_bytes());
    append_bytes(&mut data, transactions_root.as_bytes());
    assert(data@ =~= be_bytes(index) + be_bytes(timestamp) + previous_hash@ + transactions_root@);
    crate::crypto::Hash::from(data.as_slice())
}

/// Whether two sequences of transactions say the same.
fn same_transactions(a: &Vec<Transaction>, b: &Vec<Transaction>) -> (same: bool)
    ensures
        same == (transaction_views(a@) == transaction_views(b@)),
{
    if a.len() != b.len() {
        assert(transaction_views(a@).len() != transaction_views(b@).len());
        return false;
    }
    let mut i: usize = 0;
    while i < a.len()
        invariant
            i <= a.len(),
            a.len() == b.len(),
            forall|j: int| 0 <= j < i ==> a[j]@ == b[j]@,
        decreases a.len() - i,
    {
        proof {
            lemma_transaction_by_view(a[i as int], b[i as int]);
        }
        if a[i] != b[i] {
            assert(transaction_views(a@)[i as int] != transaction_views(b@)[i as int]);
            return false;
        }
        i += 1;
    }
    assert(transaction_views(a@) =~= transaction_views(b@));
    true
}

impl PartialEq for BlockBuilder {
    fn eq(&self, other: &BlockBuilder) -> (same: bool) {
        proof {
            lemma_hash_by_bytes(self.previous_hash, other.previous_hash);
        }
        self.index == other.index && self.previous_hash == other.previous_hash
            && same_transactions(&self.transactions, &other.transactions)
    }
}

impl PartialEqSpecImpl for BlockBuilder {
    open spec fn obeys_eq_spec() -> bool {
        true
    }

    /// Two pending blocks are equal where they hold the same.
    open spec fn eq_spec(&self, other: &BlockBuilder) -> bool {
        self@ == other@
    }
}

impl PartialEq for Block {
    fn eq(&self, other: &Block) -> (same: bool) {
        proof {
            lemma_hash_by_bytes(self.previous_hash, other.previous_hash);
            lemma_hash_by_bytes(self.transactions_root, other.transactions_root);
            lemma_hash_by_bytes(self.hash, other.hash);
        }
        self.index == other.index && self.timestamp == other.timestamp && self.previous_hash
            == other.previous_hash && self.transactions_root == other.transactions_root
            && self.hash == other.hash && same_transactions(
            &self.transactions,
            &other.transactions,
        )
    }
}

impl PartialEqSpecImpl for Block {
    open spec fn obeys_eq_spec() -> bool {
        true
    }

    /// Two blocks are equal where they hold the same.
    open spec fn eq_spec(&self, other: &Block) -> bool {
        self@ == other@
    }
}

impl Clone for BlockBuilder {
    fn clone(&self) -> (copy: BlockBuilder)
        ensures
            copy@ == self@,
    {
        BlockBuilder {
            index: self.index,
            previous_hash: self.previous_hash,
            transactions: copy_transactions(&self.transactions),
        }
    }
}

impl Clone for Block {
    fn clone(&self) -> (copy: Block)
        ensures
            copy@ == self@,
    {
        Block {
            index: self.index,
            timestamp: self.timestamp,
            previous_hash: self.previous_hash,
            transactions_root: self.transactions_root,
            transactions: copy_transactions(&self.transactions),
            hash: self.hash,
        }
    }
}

impl BlockBuilder {
    /// A pending block without transfers.
    pub fn new(index: u64, previous_hash: &crate::crypto::Hash) -> (builder: BlockBuilder)
        ensures
            builder@ == BuilderView::empty(index, previous_hash@),
    {
        let builder = BlockBuilder { index, previous_hash: *previous_hash, transactions: Vec::new() };
        assert(builder@.transactions =~= Seq::empty());
        builder
    }

    /// Appends `transaction`. Nothing is checked here: admission is the
    /// ledger's business.
    pub fn add_transaction(&mut self, transaction: &Transaction)
        ensures
            final(self)@ == (BuilderView {
                transactions: old(self)@.transactions.push(transaction@),
                ..old(self)@
            }),
    {
        self.transactions.push(*transaction);
        assert(final(self)@.transactions =~= old(self)@.transactions.push(transaction@));
    }

    /// The digest that the block would have if it were built at `timestamp`.
    pub fn hash(&self, timestamp: u64) -> (hash: crate::crypto::Hash)
        ensures
            hash@ == self@.digest(timestamp),
    {
        let transactions_root = self.transactions_root();
        digest_of_fields(self.index, timestamp, &self.previous_hash, &transactions_root)
    }

    /// Builds the block with the time that the system's clock shows now (0
    /// where the clock stands before the Unix epoch). The clock is read once.
    pub fn build(self) -> (block: Block)
        ensures
            block@ == self@.sealed(block@.timestamp),
            all_signed(self@.transactions) ==> block@.check() is Ok,
    {
        let timestamp = unix_time_now();
        self.build_at(timestamp)
    }

    /// Builds the block with the given timestamp.
    pub fn build_at(self, timestamp: u64) -> (block: Block)
        ensures
            block@ == self@.sealed(timestamp),
            all_signed(self@.transactions) ==> block@.check() is Ok,
    {
        let transactions_root = self.transactions_root();
        let hash = digest_of_fields(self.index, timestamp, &self.previous_hash, &transactions_root);
        Block {
            index: self.index,
            timestamp,
            previous_hash: self.previous_hash,
            transactions_root,
            transactions: self.transactions,
            hash,
        }
    }

    /// The transfers gathered so far.
    pub fn transactions(&self) -> (transactions: &Vec<Transaction>)
        ensures
            transaction_views(transactions@) == self@.transactions,
    {
        &self.transactions
    }

    /// The position that the block will take in the chain.
    pub fn index(&self) -> (index: u64)
        ensures
            index == self@.index,
    {
        self.index
    }

    /// The digest of the block that this one follows.
    pub fn previous_hash(&self) -> (previous_hash: crate::crypto::Hash)
        ensures
            previous_hash@ == self@.previous_hash,
    {
        self.previous_hash
    }

    /// The Merkle root of the transfers gathered so far.
    pub fn transactions_root(&self) -> (root: crate::crypto::Hash)
        ensures
            root@ == root_of(self@.transactions),
    {
        root_hash(transaction_hashes(&self.transactions))
    }
}

impl From<BlockBuilder> for Block {
    /// Builds the block with the time that the system's clock shows now.
    fn from(builder: BlockBuilder) -> (block: Block)
        ensures
            block@ == builder@.sealed(block@.timestamp),
    {
        builder.build()
    }
}

impl FromSpecImpl<BlockBuilder> for Block {
    /// The block depends on the clock, so no function of the builder gives it.
    open spec fn obeys_from_spec() -> bool {
        false
    }

    open spec fn from_spec(builder: BlockBuilder) -> Block {
        arbitrary()
    }
}

impl Block {
    /// The genesis block: index 0, no predecessor, the given transfers and
    /// timestamp. It needs at least one transfer, and every transfer has to
    /// verify.
    pub fn new_genesis(transactions: Vec<Transaction>, timestamp: u64) -> (res: Result<
        Block,
        BlockError,
    >)
        ensures
            ({
                let offered = transaction_views(transactions@);
                if offered.len() == 0 {
                    res == Err::<Block, BlockError>(BlockError::EmptyGenesis)
                } else if !all_signed(offered) {
                    res == Err::<Block, BlockError>(BlockError::InvalidTransaction)
                } else {
                    res matches Ok(block) && block@ == (BuilderView {
                        index: 0,
                        previous_hash: zeros(32),
                        transactions: offered,
                    }).sealed(timestamp)
                }
            }),
            res matches Ok(block) ==> block@.check() is Ok,
    {
        if transactions.len() == 0 {
            return Err(BlockError::EmptyGenesis);
        }
        if !all_verify(&transactions) {
            return Err(BlockError::InvalidTransaction);
        }
        let genesis_block = BlockBuilder {
            index: 0,
            previous_hash: crate::crypto::Hash::default(),
            transactions,
        };
        Ok(genesis_block.build_at(timestamp))
    }

    /// A block with exactly these fields, as it comes from elsewhere. Nothing
    /// is checked: `verify` tells whether the fields agree.
    pub fn from_parts(
        index: u64,
        timestamp: u64,
        previous_hash: crate::crypto::Hash,
        transactions_root: crate::crypto::Hash,
        transactions: Vec<Transaction>,
        hash: crate::crypto::Hash,
    ) -> (block: Block)
        ensures
            block@ == (BlockView {
                index,
                timestamp,
                previous_hash: previous_hash@,
                transactions_root: transactions_root@,
                transactions: transaction_views(transactions@),
                hash: hash@,
            }),
    {
        Block { index, timestamp, previous_hash, transactions_root, transactions, hash }
    }

    /// Verifies the block by reconstruction: the root is recomputed from the
    /// transfers and the digest from the stored fields, then every transfer
    /// is verified. The first mismatch is the error.
    pub fn verify(&self) -> (res: Result<(), BlockError>)
        ensures
            res == self@.check(),
    {
        let root = root_hash(transaction_hashes(&self.transactions));
        proof {
            lemma_hash_by_bytes(root, self.transactions_root);
        }
        if root != self.transactions_root {
            return Err(BlockError::InvalidTransactionsRoot);
        }
        let hash = digest_of_fields(
            self.index,
            self.timestamp,
            &self.previous_hash,
            &self.transactions_root,
        );
        proof {
            lemma_hash_by_bytes(hash, self.hash);
        }
        if hash != self.hash {
            return Err(BlockError::InvalidBlockHash);
        }
        if !all_verify(&self.transactions) {
            return Err(BlockError::InvalidSignature);
        }
        Ok(())
    }

    /// The digest of the block.
    pub fn hash(&self) -> (hash: crate::crypto::Hash)
        ensures
            hash@ == self@.hash,
    {
        self.hash
    }

    /// The transfers of the block.
    pub fn transactions(&self) -> (transactions: &Vec<Transaction>)
        ensures
            transaction_views(transactions@) == self@.transactions,
    {
        &self.transactions
    }

    /// The position of the block in the chain.
    pub fn index(&self) -> (index: u64)
        ensures
            index == self@.index,
    {
        self.index
    }

    /// The digest of the block that this one follows.
    pub fn previous_hash(&self) -> (previous_hash: crate::crypto::Hash)
        ensures
            previous_hash@ == self@.previous_hash,
    {
        self.previous_hash
    }

    /// The Merkle root of the transfers, as stored.
    pub fn transactions_root(&self) -> (root: crate::crypto::Hash)
        ensures
            root@ == self@.transactions_root,
    {
        self.transactions_root
    }

    /// The seconds since the Unix epoch at which the block was made.
    pub fn timestamp(&self) -> (timestamp: u64)
        ensures
            timestamp == self@.timestamp,
    {
        self.timestamp
    }
}

/// A block that was built from transfers that all verify passes
/// verification, whatever its timestamp.
pub proof fn lemma_built_block_verifies(builder: BuilderView, timestamp: u64)
    requires
        all_signed(builder.transactions),
    ensures
        builder.sealed(timestamp).check() is Ok,
{
}

/// A block in which the amount of a transfer was changed fails verification
/// on the root, as long as the changed transfers do not happen to have the
/// root that the block stores.
pub proof fn lemma_changed_amount_is_refused(block: BlockView, position: int, amount: u64)
    requires
        block.check() is Ok,
        0 <= position < block.transactions.len(),
        amount != block.transactions[position].amount,
        root_of(block.with_amount(position, amount).transactions) != root_of(block.transactions),
    ensures
        block.with_amount(position, amount).check() == Err::<(), BlockError>(
            BlockError::InvalidTransactionsRoot,
        ),
{
}

/// Changing the amount of a transfer changes the root of the transfers,
/// unless SHA-256 maps the old and the new bytes of the transfer to one
/// digest, or two different pairs of digests in the trees have one parent.
pub proof fn lemma_changed_amount_changes_root(
    transactions: Seq<TransactionView>,
    position: int,
    amount: u64,
)
    requires
        0 <= position < transactions.len(),
        amount != transactions[position].amount,
    ensures
        ({
            let before = transactions[position];
            let after = TransactionView { amount, ..before };
            ||| root_of(transactions.update(position, after)) != root_of(transactions)
            ||| sha256_collision(before.payload(), after.payload())
            ||| some_pair_collides()
        }),
{
    let before = transactions[position];
    let after = TransactionView { amount, ..before };
    let changed = transactions.update(position, after);
    lemma_amount_changes_payload(before, amount);
    if before.digest() != after.digest() {
        assert(transaction_digests(changed)[position] != transaction_digests(
            transactions,
        )[position]);
        lemma_root_binds_digests(transaction_digests(changed), transaction_digests(transactions));
    }
}

} // verus!
