//! The ledger: a chain of blocks, the block in the making, and the account
//! table that the transfers of both determine.

use crate::account::Account;
use crate::account::AccountView;
use crate::block::Block;
use crate::block::BlockBuilder;
use crate::block::BlockView;
use crate::block::BuilderView;
use crate::crypto::lemma_hash_by_bytes;
use crate::crypto::lemma_public_key_by_bytes;
use crate::crypto::zeros;
use crate::crypto::PublicKey;
use crate::ledger::account_of;
use crate::ledger::credited;
use crate::ledger::debited;
use crate::ledger::deposit_outcome;
use crate::ledger::deposits_outcome;
use crate::ledger::distinct_addresses;
use crate::ledger::has_account;
use crate::ledger::index_of;
use crate::ledger::lemma_credited;
use crate::ledger::lemma_index_of;
use crate::ledger::lemma_minted_is_valid;
use crate::ledger::lemma_offered_is_valid;
use crate::ledger::lemma_opened_is_valid;
use crate::ledger::lemma_same_addresses;
use crate::ledger::lemma_transfer_keeps_supply;
use crate::ledger::lemma_valid_shape;
use crate::ledger::total_balance;
use crate::ledger::same_addresses;
use crate::ledger::transfer_outcome;
use crate::ledger::LedgerError;
use crate::ledger::LedgerView;
use crate::transaction::transaction_views;
use crate::transaction::Transaction;
use vstd::prelude::*;

verus! {

/// What each of a sequence of blocks holds.
pub open spec fn block_views(blocks: Seq<Block>) -> Seq<BlockView> {
    Seq::new(blocks.len(), |i: int| blocks[i]@)
}

/// What each of a sequence of accounts holds.
pub open spec fn account_views(accounts: Seq<Account>) -> Seq<AccountView> {
    Seq::new(accounts.len(), |i: int| accounts[i]@)
}

/// The chain, its pending block and the accounts. The accounts stand in the
/// order in which they were opened; no address has two.
pub struct Blockchain {
    blocks: Vec<Block>,
    pending_block: BlockBuilder,
    accounts: Vec<Account>,
}

impl View for Blockchain {
    type V = LedgerView;

    closed spec fn view(&self) -> LedgerView {
        LedgerView {
            blocks: block_views(self.blocks@),
            pending: self.pending_block@,
            accounts: account_views(self.accounts@),
        }
    }
}

impl Blockchain {
    /// The invariant that every ledger made by this module has, and keeps.
    pub open spec fn wf(&self) -> bool {
        self@.valid()
    }

    /// A ledger whose genesis block holds `transactions` and was made at
    /// `timestamp`. The genesis transfers only credit their recipients.
    pub fn new(transactions: Vec<Transaction>, timestamp: u64) -> (res: Result<
        Blockchain,
        LedgerError,
    >)
        ensures
            match LedgerView::founded(transaction_views(transactions@), timestamp) {
                Ok(ledger) => res matches Ok(blockchain) && blockchain@ == ledger
                    && blockchain.wf(),
                Err(e) => res matches Err(error) && error == e,
            },
    {
        match Block::new_genesis(transactions, timestamp) {
            Ok(genesis_block) => Blockchain::open(genesis_block),
            Err(e) => Err(LedgerError::InvalidGenesis(e)),
        }
    }

    /// A ledger that starts from a genesis block made elsewhere. The block
    /// has to stand at index 0, name no predecessor and pass verification.
    pub fn from_genesis_block(genesis_block: Block) -> (res: Result<Blockchain, LedgerError>)
        ensures
            match LedgerView::adopted(genesis_block@) {
                Ok(ledger) => res matches Ok(blockchain) && blockchain@ == ledger
                    && blockchain.wf(),
                Err(e) => res matches Err(error) && error == e,
            },
    {
        if genesis_block.index() != 0 {
            return Err(LedgerError::InvalidGenesisIndex);
        }
        if !genesis_block.previous_hash().is_zero() {
            return Err(LedgerError::InvalidGenesisPreviousHash);
        }
        match genesis_block.verify() {
            Ok(()) => Blockchain::open(genesis_block),
            Err(e) => Err(LedgerError::InvalidGenesis(e)),
        }
    }

    /// Starts the ledger from a genesis block that passes verification.
    fn open(genesis_block: Block) -> (res: Result<Blockchain, LedgerError>)
        requires
            genesis_block@.index == 0,
            genesis_block@.previous_hash == zeros(32),
            genesis_block@.check() is Ok,
        ensures
            match LedgerView::opened(genesis_block@) {
                Ok(ledger) => res matches Ok(blockchain) && blockchain@ == ledger
                    && blockchain.wf(),
                Err(e) => res matches Err(error) && error == e,
            },
    {
        let hash = genesis_block.hash();
        let ghost genesis = genesis_block@;
        let mut blocks: Vec<Block> = Vec::new();
        blocks.push(genesis_block);
        let mut blockchain = Blockchain {
            blocks,
            pending_block: BlockBuilder::new(1, &hash),
            accounts: Vec::new(),
        };
        assert(blockchain@.blocks =~= seq![genesis]);
        assert(blockchain@.accounts =~= Seq::empty());
        let count = blockchain.blocks[0].transactions().len();
        let mut i: usize = 0;
        while i < count
            invariant
                i <= count,
                count == genesis.transactions.len(),
                genesis == genesis_block@,
                blockchain@.blocks == seq![genesis],
                blockchain@.pending == BuilderView::empty(1, genesis.hash),
                distinct_addresses(blockchain@.accounts),
                deposits_outcome(Seq::empty(), genesis.transactions.take(i as int)) == Ok::<
                    Seq<AccountView>,
                    LedgerError,
                >(blockchain@.accounts),
            decreases count - i,
        {
            assert(blockchain@.blocks.len() == 1 && blockchain@.blocks[0] == genesis);
            let tx = blockchain.blocks[0].transactions()[i];
            let ghost done = genesis.transactions.take(i as int);
            let ghost next = genesis.transactions.take(i + 1);
            proof {
                assert(tx@ == genesis.transactions[i as int]);
                assert(next.drop_last() =~= done);
                assert(next.last() == tx@);
                assert(deposits_outcome(Seq::empty(), next) == deposit_outcome(
                    blockchain@.accounts,
                    tx@,
                ));
                lemma_deposits_fail_on(genesis.transactions, i + 1);
            }
            match blockchain.execute_transaction_genesis(&tx) {
                Ok(()) => {},
                Err(e) => {
                    return Err(e);
                },
            }
            i += 1;
        }
        proof {
            assert(genesis.transactions =~= genesis.transactions.take(count as int));
            lemma_opened_is_valid(genesis);
        }
        Ok(blockchain)
    }

    /// The position of the account with `address`, if there is one.
    fn find_account(&self, address: &PublicKey) -> (found: Option<usize>)
        requires
            distinct_addresses(self@.accounts),
        ensures
            match found {
                Some(i) => has_account(self@.accounts, address@) && i == index_of(
                    self@.accounts,
                    address@,
                ) && i < self.accounts.len(),
                None => !has_account(self@.accounts, address@),
            },
    {
        let mut i: usize = 0;
        while i < self.accounts.len()
            invariant
                i <= self.accounts.len(),
                distinct_addresses(self@.accounts),
                forall|j: int| 0 <= j < i ==> (#[trigger] self@.accounts[j]).address != address@,
            decreases self.accounts.len() - i,
        {
            let candidate = self.accounts[i].address();
            proof {
                lemma_public_key_by_bytes(candidate, *address);
            }
            if candidate == *address {
                proof {
                    lemma_index_of(self@.accounts, i as int);
                }
                return Some(i);
            }
            i += 1;
        }
        None
    }

    /// Opens an account for an address that has none, and gives its position.
    fn add_account(&mut self, address: &PublicKey) -> (position: usize)
        requires
            !has_account(old(self)@.accounts, address@),
        ensures
            final(self)@ == (LedgerView {
                accounts: old(self)@.accounts.push(AccountView::fresh(address@)),
                ..old(self)@
            }),
            position == old(self)@.accounts.len(),
    {
        let position = self.accounts.len();
        self.accounts.push(Account::new(address));
        assert(final(self)@.accounts =~= old(self)@.accounts.push(AccountView::fresh(address@)));
        position
    }

    /// The account at `position`, to be changed in place.
    fn get_account_mut(&mut self, position: usize) -> (account: &mut Account)
        requires
            position < old(self)@.accounts.len(),
        ensures
            account@ == old(self)@.accounts[position as int],
            final(self)@.blocks == old(self)@.blocks,
            final(self)@.pending == old(self)@.pending,
            final(self)@.accounts == old(self)@.accounts.update(position as int, final(account)@),
    {
        &mut self.accounts[position]
    }

    /// The account of `address`, if it has one.
    pub fn get_account(&self, address: &PublicKey) -> (res: Option<&Account>)
        requires
            self.wf(),
        ensures
            match res {
                Some(account) => account_of(self@.accounts, address@) == Some(account@),
                None => account_of(self@.accounts, address@) is None,
            },
    {
        proof {
            lemma_valid_shape(self@);
        }
        match self.find_account(address) {
            Some(i) => Some(&self.accounts[i]),
            None => None,
        }
    }

    /// Offers a transfer to the ledger. It is admitted where it verifies,
    /// moves at least one unit, comes from an account whose replay counter
    /// is its nonce and whose balance covers it, and overflows neither the
    /// recipient's balance nor the sender's counter. An admitted transfer
    /// changes the accounts and joins the pending block; a refused one
    /// changes nothing. Either way the balances add up to what they did.
    pub fn add_transaction(&mut self, tx: Transaction) -> (res: Result<(), LedgerError>)
        requires
            old(self).wf(),
        ensures
            final(self).wf(),
            final(self)@ == old(self)@.offered(tx@),
            match transfer_outcome(old(self)@.accounts, tx@) {
                Ok(_) => res is Ok,
                Err(e) => res == Err::<(), LedgerError>(e),
            },
            total_balance(final(self)@.accounts) == total_balance(old(self)@.accounts),
    {
        proof {
            lemma_valid_shape(self@);
            lemma_offered_is_valid(self@, tx@);
            if transfer_outcome(self@.accounts, tx@) is Ok {
                lemma_transfer_keeps_supply(self@.accounts, tx@);
            }
        }
        match self.execute_transaction(&tx) {
            Ok(()) => {
                self.pending_block.add_transaction(&tx);
                Ok(())
            },
            Err(e) => Err(e),
        }
    }

    /// Applies a transfer to the accounts, or refuses it and leaves them as
    /// they were.
    fn execute_transaction(&mut self, tx: &Transaction) -> (res: Result<(), LedgerError>)
        requires
            distinct_addresses(old(self)@.accounts),
        ensures
            match transfer_outcome(old(self)@.accounts, tx@) {
                Ok(accounts) => res is Ok && final(self)@ == (LedgerView {
                    accounts,
                    ..old(self)@
                }),
                Err(e) => res == Err::<(), LedgerError>(e) && final(self)@ == old(self)@,
            },
    {
        if tx.verify().is_err() {
            return Err(LedgerError::InvalidSignature);
        }
        let amount = tx.amount();
        if amount == 0 {
            return Err(LedgerError::ZeroAmount);
        }
        let from = tx.from();
        let to = tx.to();
        let sender = match self.find_account(&from) {
            Some(i) => i,
            None => {
                return Err(LedgerError::UnknownSender);
            },
        };
        if self.accounts[sender].nonce() != tx.nonce() {
            return Err(LedgerError::InvalidNonce);
        }
        if self.accounts[sender].balance() < amount {
            return Err(LedgerError::InsufficientFunds);
        }
        let known = self.find_account(&to);
        match known {
            Some(j) => {
                if self.accounts[j].balance() > u64::MAX - amount {
                    return Err(LedgerError::BalanceOverflow);
                }
            },
            None => {},
        }
        if tx.nonce() == u64::MAX {
            return Err(LedgerError::NonceOverflow);
        }
        let ghost before = self@.accounts;
        let ghost taken = debited(before, tx@.from, amount);
        proof {
            assert(same_addresses(before, taken));
            lemma_same_addresses(before, taken, tx@.to);
        }
        let recipient = match known {
            Some(j) => j,
            None => self.add_account(&to),
        };
        self.get_account_mut(sender).transfer(amount);
        self.get_account_mut(recipient).deposit(amount);
        self.get_account_mut(sender).increment_nonce();
        assert(final(self)@.accounts =~= credited(taken, tx@.to, amount));
        Ok(())
    }

    /// Applies a genesis transfer: the recipient is credited, and nothing is
    /// asked of the sender but the signature.
    fn execute_transaction_genesis(&mut self, tx: &Transaction) -> (res: Result<(), LedgerError>)
        requires
            distinct_addresses(old(self)@.accounts),
        ensures
            match deposit_outcome(old(self)@.accounts, tx@) {
                Ok(accounts) => res is Ok && final(self)@ == (LedgerView {
                    accounts,
                    ..old(self)@
                }) && distinct_addresses(accounts),
                Err(e) => res == Err::<(), LedgerError>(e) && final(self)@ == old(self)@,
            },
    {
        if tx.verify().is_err() {
            return Err(LedgerError::InvalidSignature);
        }
        let amount = tx.amount();
        if amount == 0 {
            return Err(LedgerError::ZeroAmount);
        }
        let to = tx.to();
        let known = self.find_account(&to);
        match known {
            Some(j) => {
                if self.accounts[j].balance() > u64::MAX - amount {
                    return Err(LedgerError::BalanceOverflow);
                }
            },
            None => {},
        }
        proof {
            lemma_credited(self@.accounts, tx@.to, amount);
        }
        let recipient = match known {
            Some(j) => j,
            None => self.add_account(&to),
        };
        self.get_account_mut(recipient).deposit(amount);
        assert(final(self)@.accounts =~= credited(old(self)@.accounts, tx@.to, amount));
        Ok(())
    }

    /// The tip of the chain. A ledger always has one.
    pub fn last_block(&self) -> (res: Option<&Block>)
        requires
            self.wf(),
        ensures
            res matches Some(block) && block@ == self@.blocks.last(),
    {
        proof {
            lemma_valid_shape(self@);
        }
        Some(&self.blocks[self.blocks.len() - 1])
    }

    /// The block in the making.
    pub fn pending_block(&self) -> (pending: &BlockBuilder)
        ensures
            pending@ == self@.pending,
    {
        &self.pending_block
    }

    /// Builds the pending block with the time that the system's clock shows
    /// now, appends it to the chain and starts a new pending block after it.
    /// This never fails, also where the pending block holds no transfer.
    pub fn finalize_and_mint_pending_block(&mut self)
        requires
            old(self).wf(),
        ensures
            final(self).wf(),
            final(self)@ == old(self)@.minted(final(self)@.blocks.last().timestamp),
    {
        let timestamp = crate::clock::unix_time_now();
        self.finalize_and_mint_pending_block_at(timestamp);
    }

    /// As `finalize_and_mint_pending_block`, with the timestamp given.
    pub fn finalize_and_mint_pending_block_at(&mut self, timestamp: u64)
        requires
            old(self).wf(),
        ensures
            final(self).wf(),
            final(self)@ == old(self)@.minted(timestamp),
    {
        let ghost before = self@;
        proof {
            lemma_valid_shape(before);
        }
        let block = self.pending_block.clone().build_at(timestamp);
        let index = block.index();
        let hash = block.hash();
        self.blocks.push(block);
        let length = self.blocks.len();
        assert(index == before.blocks.len());
        assert(length == before.blocks.len() + 1);
        proof {
            lemma_minted_is_valid(before, timestamp);
        }
        self.pending_block = BlockBuilder::new(index + 1, &hash);
        assert(self@.blocks =~= before.minted(timestamp).blocks);
        assert(self@.accounts == before.accounts);
        assert(self@.pending == before.minted(timestamp).pending);
    }

    /// The digest of the tip of the chain.
    pub fn last_block_hash(&self) -> (res: Option<crate::crypto::Hash>)
        requires
            self.wf(),
        ensures
            res matches Some(hash) && hash@ == self@.blocks.last().hash,
    {
        match self.last_block() {
            Some(block) => Some(block.hash()),
            None => None,
        }
    }

    /// The block at position `index` of the chain, if the chain is that long.
    pub fn get_block_by_index(&self, index: u64) -> (res: Option<&Block>)
        ensures
            match res {
                Some(block) => index < self@.blocks.len() && block@ == self@.blocks[index as int],
                None => index >= self@.blocks.len(),
            },
    {
        if index < self.blocks.len() as u64 {
            Some(&self.blocks[index as usize])
        } else {
            None
        }
    }

    /// The first block of the chain whose digest is `hash`, if there is one.
    pub fn get_block_by_hash(&self, hash: &crate::crypto::Hash) -> (res: Option<&Block>)
        ensures
            match res {
                Some(block) => exists|i: int|
                    0 <= i < self@.blocks.len() && block@ == #[trigger] self@.blocks[i]
                        && block@.hash == hash@ && forall|j: int|
                        0 <= j < i ==> (#[trigger] self@.blocks[j]).hash != hash@,
                None => forall|i: int|
                    0 <= i < self@.blocks.len() ==> (#[trigger] self@.blocks[i]).hash != hash@,
            },
    {
        let mut i: usize = 0;
        while i < self.blocks.len()
            invariant
                i <= self.blocks.len(),
                forall|j: int| 0 <= j < i ==> (#[trigger] self@.blocks[j]).hash != hash@,
            decreases self.blocks.len() - i,
        {
            let candidate = self.blocks[i].hash();
            proof {
                lemma_hash_by_bytes(candidate, *hash);
            }
            if candidate == *hash {
                assert(self.blocks@[i as int]@ == self@.blocks[i as int]);
                return Some(&self.blocks[i]);
            }
            i += 1;
        }
        None
    }
}

/// Where genesis transfers fail on a prefix, they fail on the whole.
proof fn lemma_deposits_fail_on(transactions: Seq<crate::transaction::TransactionView>, n: int)
    requires
        0 <= n <= transactions.len(),
    ensures
        deposits_outcome(Seq::empty(), transactions.take(n)) is Err ==> deposits_outcome(
            Seq::empty(),
            transactions,
        ) == deposits_outcome(Seq::empty(), transactions.take(n)),
    decreases transactions.len() - n,
{
    if n < transactions.len() {
        assert(transactions.take(n + 1).drop_last() =~= transactions.take(n));
        lemma_deposits_fail_on(transactions, n + 1);
    } else {
        assert(transactions.take(n) =~= transactions);
    }
}

} // verus!
