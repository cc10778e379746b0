//! The ledger as a state machine over plain values: what the account table
//! becomes when a transfer is applied, what a chain of blocks says the account
//! table is, and the laws that follow.

use crate::account::AccountView;
use crate::block::BlockError;
use crate::block::BlockView;
use crate::block::BuilderView;
use crate::crypto::zeros;
use crate::transaction::all_signed;
use crate::transaction::TransactionView;
use vstd::prelude::*;

verus! {

/// Why the ledger refused a genesis block or a transfer.
#[derive(Debug, Clone, Copy, PartialEq, Eq, Structural)]
pub enum LedgerError {
    /// The genesis block could not be made, or does not pass verification.
    InvalidGenesis(BlockError),
    /// A block offered as genesis has an index other than 0.
    InvalidGenesisIndex,
    /// A block offered as genesis names a predecessor.
    InvalidGenesisPreviousHash,
    /// The transfer's signature does not verify.
    InvalidSignature,
    /// The transfer moves nothing.
    ZeroAmount,
    /// The sender has no account.
    UnknownSender,
    /// The transfer's nonce is not the sender's replay counter.
    InvalidNonce,
    /// The sender holds less than the amount.
    InsufficientFunds,
    /// The recipient's balance would pass the largest 64-bit number.
    BalanceOverflow,
    /// The sender's replay counter stands at the largest 64-bit number and
    /// cannot advance.
    NonceOverflow,
}

/// Whether some account of the table has `address`.
pub open spec fn has_account(accounts: Seq<AccountView>, address: Seq<u8>) -> bool {
    exists|i: int| 0 <= i < accounts.len() && (#[trigger] accounts[i]).address == address
}

/// The position of the account with `address`, where there is one.
pub open spec fn index_of(accounts: Seq<AccountView>, address: Seq<u8>) -> int {
    choose|i: int| 0 <= i < accounts.len() && (#[trigger] accounts[i]).address == address
}

/// The account with `address`, if the table has one.
pub open spec fn account_of(accounts: Seq<AccountView>, address: Seq<u8>) -> Option<AccountView> {
    if has_account(accounts, address) {
        Some(accounts[index_of(accounts, address)])
    } else {
        None
    }
}

/// The units that `address` holds: those of its account, or none.
pub open spec fn balance_of(accounts: Seq<AccountView>, address: Seq<u8>) -> u64 {
    match account_of(accounts, address) {
        Some(account) => account.balance,
        None => 0,
    }
}

/// No two accounts of the table share an address.
pub open spec fn distinct_addresses(accounts: Seq<AccountView>) -> bool {
    forall|i: int, j: int|
        0 <= i < j < accounts.len() ==> (#[trigger] accounts[i]).address != (
        #[trigger] accounts[j]).address
}

/// The sum of all balances.
pub open spec fn total_balance(accounts: Seq<AccountView>) -> nat
    decreases accounts.len(),
{
    if accounts.len() == 0 {
        0
    } else {
        total_balance(accounts.drop_last()) + accounts.last().balance as nat
    }
}

/// The sum of the amounts of a sequence of transfers.
pub open spec fn total_amount(transactions: Seq<TransactionView>) -> nat
    decreases transactions.len(),
{
    if transactions.len() == 0 {
        0
    } else {
        total_amount(transactions.drop_last()) + transactions.last().amount as nat
    }
}

/// The table after `amount` units were put on the account of `address`, which
/// is opened at the end of the table if it was not there.
pub open spec fn credited(accounts: Seq<AccountView>, address: Seq<u8>, amount: u64) -> Seq<
    AccountView,
> {
    if has_account(accounts, address) {
        let i = index_of(accounts, address);
        accounts.update(
            i,
            AccountView { balance: (accounts[i].balance + amount) as u64, ..accounts[i] },
        )
    } else {
        accounts.push(AccountView { address, balance: amount, nonce: 0 })
    }
}

/// The table after `amount` units were taken off the account of `address`
/// and its replay counter advanced by one.
pub open spec fn debited(accounts: Seq<AccountView>, address: Seq<u8>, amount: u64) -> Seq<
    AccountView,
> {
    let i = index_of(accounts, address);
    accounts.update(
        i,
        AccountView {
            balance: (accounts[i].balance - amount) as u64,
            nonce: (accounts[i].nonce + 1) as u64,
            ..accounts[i]
        },
    )
}

/// What admitting a transfer does to the account table. The checks are made
/// in this order, and the first that fails is the error; the table changes
/// only where all of them pass. A transfer to the sender's own address is a
/// debit followed by a credit of the same account.
pub open spec fn transfer_outcome(accounts: Seq<AccountView>, tx: TransactionView) -> Result<
    Seq<AccountView>,
    LedgerError,
> {
    if !tx.is_signed() {
        Err(LedgerError::InvalidSignature)
    } else if tx.amount == 0 {
        Err(LedgerError::ZeroAmount)
    } else if !has_account(accounts, tx.from) {
        Err(LedgerError::UnknownSender)
    } else if accounts[index_of(accounts, tx.from)].nonce != tx.nonce {
        Err(LedgerError::InvalidNonce)
    } else if accounts[index_of(accounts, tx.from)].balance < tx.amount {
        Err(LedgerError::InsufficientFunds)
    } else if balance_of(accounts, tx.to) + tx.amount > u64::MAX {
        Err(LedgerError::BalanceOverflow)
    } else if tx.nonce == u64::MAX {
        Err(LedgerError::NonceOverflow)
    } else {
        Ok(credited(debited(accounts, tx.from, tx.amount), tx.to, tx.amount))
    }
}

/// What a genesis transfer does to the account table: it only credits the
/// recipient. The sender needs neither an account nor funds, and no replay
/// counter is looked at.
pub open spec fn deposit_outcome(accounts: Seq<AccountView>, tx: TransactionView) -> Result<
    Seq<AccountView>,
    LedgerError,
> {
    if !tx.is_signed() {
        Err(LedgerError::InvalidSignature)
    } else if tx.amount == 0 {
        Err(LedgerError::ZeroAmount)
    } else if balance_of(accounts, tx.to) + tx.amount > u64::MAX {
        Err(LedgerError::BalanceOverflow)
    } else {
        Ok(credited(accounts, tx.to, tx.amount))
    }
}

/// Genesis transfers applied in their order; the first error ends it.
pub open spec fn deposits_outcome(
    accounts: Seq<AccountView>,
    transactions: Seq<TransactionView>,
) -> Result<Seq<AccountView>, LedgerError>
    decreases transactions.len(),
{
    if transactions.len() == 0 {
        Ok(accounts)
    } else {
        match deposits_outcome(accounts, transactions.drop_last()) {
            Ok(before) => deposit_outcome(before, transactions.last()),
            Err(e) => Err(e),
        }
    }
}

/// Transfers applied in their order; the first error ends it.
pub open spec fn transfers_outcome(
    accounts: Seq<AccountView>,
    transactions: Seq<TransactionView>,
) -> Result<Seq<AccountView>, LedgerError>
    decreases transactions.len(),
{
    if transactions.len() == 0 {
        Ok(accounts)
    } else {
        match transfers_outcome(accounts, transactions.drop_last()) {
            Ok(before) => transfer_outcome(before, transactions.last()),
            Err(e) => Err(e),
        }
    }
}

/// The transfers of all blocks after the first, in chain order.
pub open spec fn later_transactions(blocks: Seq<BlockView>) -> Seq<TransactionView>
    decreases blocks.len(),
{
    if blocks.len() <= 1 {
        Seq::empty()
    } else {
        later_transactions(blocks.drop_last()) + blocks.last().transactions
    }
}

/// A chain, the block in the making, and the account table.
pub struct LedgerView {
    pub blocks: Seq<BlockView>,
    pub pending: BuilderView,
    pub accounts: Seq<AccountView>,
}

impl LedgerView {
    /// The account table that the chain and the pending block determine: the
    /// genesis transfers credited, then every later transfer applied in
    /// order.
    pub open spec fn replayed(self) -> Result<Seq<AccountView>, LedgerError> {
        match deposits_outcome(Seq::empty(), self.blocks[0].transactions) {
            Ok(issued) => transfers_outcome(
                issued,
                later_transactions(self.blocks) + self.pending.transactions,
            ),
            Err(e) => Err(e),
        }
    }

    /// The invariant of the ledger: the chain starts with a genesis block,
    /// every block stands at its index, names its predecessor's digest and
    /// passes verification; the pending block continues the chain's tip and
    /// holds only transfers that verify; no address has two accounts; and
    /// the account table is what replaying all transfers gives.
    #[verifier::opaque]
    pub open spec fn valid(self) -> bool {
        &&& self.blocks.len() >= 1
        &&& forall|i: int| 0 <= i < self.blocks.len() ==> (#[trigger] self.blocks[i]).index == i
        &&& forall|i: int|
            0 <= i < self.blocks.len() ==> (#[trigger] self.blocks[i]).check() is Ok
        &&& self.blocks[0].previous_hash == zeros(32)
        &&& forall|i: int|
            1 <= i < self.blocks.len() ==> (#[trigger] self.blocks[i]).previous_hash
                == self.blocks[i - 1].hash
        &&& self.pending.index == self.blocks.len()
        &&& self.pending.previous_hash == self.blocks.last().hash
        &&& all_signed(self.pending.transactions)
        &&& distinct_addresses(self.accounts)
        &&& self.replayed() == Ok::<Seq<AccountView>, LedgerError>(self.accounts)
    }

    /// The ledger that starts from `genesis`: the genesis transfers are
    /// credited in order, and the pending block has index 1 and follows the
    /// genesis block.
    pub open spec fn opened(genesis: BlockView) -> Result<LedgerView, LedgerError> {
        match deposits_outcome(Seq::empty(), genesis.transactions) {
            Ok(accounts) => Ok(
                LedgerView {
                    blocks: seq![genesis],
                    pending: BuilderView::empty(1, genesis.hash),
                    accounts,
                },
            ),
            Err(e) => Err(e),
        }
    }

    /// The ledger that starts from the genesis block made of `transactions`
    /// at `timestamp`, or why there is none.
    pub open spec fn founded(transactions: Seq<TransactionView>, timestamp: u64) -> Result<
        LedgerView,
        LedgerError,
    > {
        if transactions.len() == 0 {
            Err(LedgerError::InvalidGenesis(BlockError::EmptyGenesis))
        } else if !all_signed(transactions) {
            Err(LedgerError::InvalidGenesis(BlockError::InvalidTransaction))
        } else {
            LedgerView::opened(
                (BuilderView { index: 0, previous_hash: zeros(32), transactions }).sealed(
                    timestamp,
                ),
            )
        }
    }

    /// The ledger that starts from a genesis block made elsewhere, or why
    /// there is none.
    pub open spec fn adopted(genesis: BlockView) -> Result<LedgerView, LedgerError> {
        if genesis.index != 0 {
            Err(LedgerError::InvalidGenesisIndex)
        } else if genesis.previous_hash != zeros(32) {
            Err(LedgerError::InvalidGenesisPreviousHash)
        } else {
            match genesis.check() {
                Err(e) => Err(LedgerError::InvalidGenesis(e)),
                Ok(()) => LedgerView::opened(genesis),
            }
        }
    }

    /// The ledger after `tx` was offered: admitted, it changes the account
    /// table and joins the pending block; refused, it changes nothing.
    pub open spec fn offered(self, tx: TransactionView) -> LedgerView {
        match transfer_outcome(self.accounts, tx) {
            Ok(accounts) => LedgerView {
                accounts,
                pending: BuilderView {
                    transactions: self.pending.transactions.push(tx),
                    ..self.pending
                },
                ..self
            },
            Err(_) => self,
        }
    }

    /// The ledger after the pending block was built at `timestamp` and
    /// appended: a new, empty pending block follows the new tip.
    pub open spec fn minted(self, timestamp: u64) -> LedgerView {
        let block = self.pending.sealed(timestamp);
        LedgerView {
            blocks: self.blocks.push(block),
            pending: BuilderView::empty((self.pending.index + 1) as u64, block.hash),
            accounts: self.accounts,
        }
    }
}

/// Whether two tables hold the same addresses at the same positions.
pub open spec fn same_addresses(a: Seq<AccountView>, b: Seq<AccountView>) -> bool {
    &&& a.len() == b.len()
    &&& forall|k: int| 0 <= k < a.len() ==> (#[trigger] a[k]).address == (#[trigger] b[k]).address
}

/// In a table without duplicate addresses, the account at a position is the
/// account of its address.
pub proof fn lemma_index_of(accounts: Seq<AccountView>, i: int)
    requires
        distinct_addresses(accounts),
        0 <= i < accounts.len(),
    ensures
        has_account(accounts, accounts[i].address),
        index_of(accounts, accounts[i].address) == i,
{
    let j = index_of(accounts, accounts[i].address);
    assert(0 <= j < accounts.len() && accounts[j].address == accounts[i].address);
}

/// Where the table has an account of `address`, its position lies in the
/// table and holds that address.
pub proof fn lemma_index_of_known(accounts: Seq<AccountView>, address: Seq<u8>)
    requires
        has_account(accounts, address),
    ensures
        0 <= index_of(accounts, address) < accounts.len(),
        accounts[index_of(accounts, address)].address == address,
{
}

/// Tables with the same addresses at the same positions have accounts of the
/// same addresses, at the same positions.
pub proof fn lemma_same_addresses(a: Seq<AccountView>, b: Seq<AccountView>, address: Seq<u8>)
    requires
        same_addresses(a, b),
        distinct_addresses(a),
    ensures
        distinct_addresses(b),
        has_account(b, address) == has_account(a, address),
        has_account(a, address) ==> index_of(b, address) == index_of(a, address),
{
    assert forall|i: int, j: int| 0 <= i < j < b.len() implies (#[trigger] b[i]).address != (
    #[trigger] b[j]).address by {
        assert(a[i].address == b[i].address);
        assert(a[j].address == b[j].address);
    }
    if has_account(a, address) {
        let i = index_of(a, address);
        assert(b[i].address == address);
        lemma_index_of(b, i);
    }
    if has_account(b, address) {
        let i = index_of(b, address);
        assert(a[i].address == address);
    }
}

/// Replacing one account changes the sum of balances by the difference of
/// the two balances.
pub proof fn lemma_total_update(accounts: Seq<AccountView>, i: int, account: AccountView)
    requires
        0 <= i < accounts.len(),
    ensures
        total_balance(accounts.update(i, account)) == total_balance(accounts)
            - accounts[i].balance + account.balance,
    decreases accounts.len(),
{
    let updated = accounts.update(i, account);
    if i == accounts.len() - 1 {
        assert(updated.drop_last() =~= accounts.drop_last());
    } else {
        assert(updated.drop_last() =~= accounts.drop_last().update(i, account));
        lemma_total_update(accounts.drop_last(), i, account);
    }
}

/// A new account adds its balance to the sum.
pub proof fn lemma_total_push(accounts: Seq<AccountView>, account: AccountView)
    ensures
        total_balance(accounts.push(account)) == total_balance(accounts) + account.balance,
{
    assert(accounts.push(account).drop_last() =~= accounts);
}

/// A credit that fits adds its amount to the sum of balances and keeps
/// addresses distinct.
pub proof fn lemma_credited(accounts: Seq<AccountView>, address: Seq<u8>, amount: u64)
    requires
        distinct_addresses(accounts),
        balance_of(accounts, address) + amount <= u64::MAX,
    ensures
        distinct_addresses(credited(accounts, address, amount)),
        total_balance(credited(accounts, address, amount)) == total_balance(accounts) + amount,
{
    let next = credited(accounts, address, amount);
    if has_account(accounts, address) {
        let i = index_of(accounts, address);
        lemma_total_update(accounts, i, next[i]);
        assert(same_addresses(accounts, next));
        lemma_same_addresses(accounts, next, address);
    } else {
        lemma_total_push(accounts, next.last());
        assert forall|i: int, j: int| 0 <= i < j < next.len() implies (#[trigger] next[i]).address
            != (#[trigger] next[j]).address by {
            if j == accounts.len() {
                assert(accounts[i].address != address);
            } else {
                assert(next[i] == accounts[i] && next[j] == accounts[j]);
            }
        }
    }
}

/// Value is neither made nor lost by a transfer: an admitted transfer leaves
/// the sum of all balances as it was, and addresses distinct.
pub proof fn lemma_transfer_keeps_supply(accounts: Seq<AccountView>, tx: TransactionView)
    requires
        distinct_addresses(accounts),
        transfer_outcome(accounts, tx) is Ok,
    ensures
        distinct_addresses(transfer_outcome(accounts, tx)->Ok_0),
        total_balance(transfer_outcome(accounts, tx)->Ok_0) == total_balance(accounts),
{
    let i = index_of(accounts, tx.from);
    let taken = debited(accounts, tx.from, tx.amount);
    lemma_total_update(accounts, i, taken[i]);
    assert(same_addresses(accounts, taken));
    lemma_same_addresses(accounts, taken, tx.to);
    if has_account(accounts, tx.to) {
        let j = index_of(accounts, tx.to);
        lemma_index_of_known(accounts, tx.to);
        assert(balance_of(taken, tx.to) <= balance_of(accounts, tx.to));
    }
    lemma_credited(taken, tx.to, tx.amount);
}

/// A genesis transfer that is applied adds its amount to the sum of all
/// balances, and keeps addresses distinct.
pub proof fn lemma_deposit_adds_supply(accounts: Seq<AccountView>, tx: TransactionView)
    requires
        distinct_addresses(accounts),
        deposit_outcome(accounts, tx) is Ok,
    ensures
        distinct_addresses(deposit_outcome(accounts, tx)->Ok_0),
        total_balance(deposit_outcome(accounts, tx)->Ok_0) == total_balance(accounts) + tx.amount,
{
    lemma_credited(accounts, tx.to, tx.amount);
}

/// Genesis transfers that are all applied add the sum of their amounts.
pub proof fn lemma_deposits_add_supply(
    accounts: Seq<AccountView>,
    transactions: Seq<TransactionView>,
)
    requires
        distinct_addresses(accounts),
        deposits_outcome(accounts, transactions) is Ok,
    ensures
        distinct_addresses(deposits_outcome(accounts, transactions)->Ok_0),
        total_balance(deposits_outcome(accounts, transactions)->Ok_0) == total_balance(accounts)
            + total_amount(transactions),
    decreases transactions.len(),
{
    if transactions.len() > 0 {
        lemma_deposits_add_supply(accounts, transactions.drop_last());
        lemma_deposit_adds_supply(
            deposits_outcome(accounts, transactions.drop_last())->Ok_0,
            transactions.last(),
        );
    }
}

/// Whatever sequence of transfers is admitted, the sum of all balances stays
/// what it was.
pub proof fn lemma_transfers_keep_supply(
    accounts: Seq<AccountView>,
    transactions: Seq<TransactionView>,
)
    requires
        distinct_addresses(accounts),
        transfers_outcome(accounts, transactions) is Ok,
    ensures
        distinct_addresses(transfers_outcome(accounts, transactions)->Ok_0),
        total_balance(transfers_outcome(accounts, transactions)->Ok_0) == total_balance(accounts),
    decreases transactions.len(),
{
    if transactions.len() > 0 {
        lemma_transfers_keep_supply(accounts, transactions.drop_last());
        lemma_transfer_keeps_supply(
            transfers_outcome(accounts, transactions.drop_last())->Ok_0,
            transactions.last(),
        );
    }
}

/// In every valid ledger the balances add up to what the genesis block
/// issued: transfers neither make nor lose value.
pub proof fn lemma_supply_is_conserved(ledger: LedgerView)
    requires
        ledger.valid(),
    ensures
        total_balance(ledger.accounts) == total_amount(ledger.blocks[0].transactions),
{
    reveal(LedgerView::valid);
    let genesis = ledger.blocks[0].transactions;
    let later = later_transactions(ledger.blocks) + ledger.pending.transactions;
    assert(distinct_addresses(Seq::<AccountView>::empty()));
    lemma_deposits_add_supply(Seq::empty(), genesis);
    lemma_transfers_keep_supply(deposits_outcome(Seq::empty(), genesis)->Ok_0, later);
}

/// A nonce is good for one transfer: once a transfer is admitted, a second
/// one from the same sender with the same nonce is refused, and for its
/// nonce unless its signature or its amount already rule it out.
pub proof fn lemma_nonce_is_spent(
    accounts: Seq<AccountView>,
    first: TransactionView,
    second: TransactionView,
)
    requires
        distinct_addresses(accounts),
        transfer_outcome(accounts, first) is Ok,
        second.from == first.from,
        second.nonce == first.nonce,
    ensures
        transfer_outcome(transfer_outcome(accounts, first)->Ok_0, second) == Err::<
            Seq<AccountView>,
            LedgerError,
        >(
            if !second.is_signed() {
                LedgerError::InvalidSignature
            } else if second.amount == 0 {
                LedgerError::ZeroAmount
            } else {
                LedgerError::InvalidNonce
            },
        ),
{
    let i = index_of(accounts, first.from);
    let taken = debited(accounts, first.from, first.amount);
    let next = transfer_outcome(accounts, first)->Ok_0;
    lemma_transfer_keeps_supply(accounts, first);
    assert(same_addresses(accounts, taken));
    lemma_same_addresses(accounts, taken, first.to);
    if has_account(taken, first.to) {
        lemma_index_of_known(taken, first.to);
    }
    assert(next[i].address == first.from);
    assert(next[i].nonce == first.nonce + 1);
    lemma_index_of(next, i);
}

/// The shape of a valid ledger: it has a tip, which the pending block
/// continues, and no address has two accounts.
pub proof fn lemma_valid_shape(ledger: LedgerView)
    requires
        ledger.valid(),
    ensures
        ledger.blocks.len() >= 1,
        ledger.pending.index == ledger.blocks.len(),
        ledger.pending.previous_hash == ledger.blocks.last().hash,
        distinct_addresses(ledger.accounts),
{
    reveal(LedgerView::valid);
}

/// The chain of a valid ledger: every block stands at its index, passes
/// verification and names the digest of the block before it; the first
/// names none.
pub proof fn lemma_valid_chain(ledger: LedgerView, i: int)
    requires
        ledger.valid(),
        0 <= i < ledger.blocks.len(),
    ensures
        ledger.blocks[i].index == i,
        ledger.blocks[i].check() is Ok,
        i == 0 ==> ledger.blocks[i].previous_hash == zeros(32),
        i > 0 ==> ledger.blocks[i].previous_hash == ledger.blocks[i - 1].hash,
{
    reveal(LedgerView::valid);
}

/// The accounts of a valid ledger are what its transfers say: the genesis
/// transfers credited, then the transfers of the later blocks and of the
/// pending block applied in order, none of them refused.
pub proof fn lemma_accounts_are_replayed(ledger: LedgerView)
    requires
        ledger.valid(),
    ensures
        ledger.replayed() == Ok::<Seq<AccountView>, LedgerError>(ledger.accounts),
        all_signed(ledger.pending.transactions),
{
    reveal(LedgerView::valid);
}

/// The ledger that a verified genesis block opens is valid.
pub proof fn lemma_opened_is_valid(genesis: BlockView)
    requires
        genesis.index == 0,
        genesis.previous_hash == zeros(32),
        genesis.check() is Ok,
        LedgerView::opened(genesis) is Ok,
    ensures
        LedgerView::opened(genesis)->Ok_0.valid(),
{
    reveal(LedgerView::valid);
    let ledger = LedgerView::opened(genesis)->Ok_0;
    assert(distinct_addresses(Seq::<AccountView>::empty()));
    lemma_deposits_add_supply(Seq::empty(), genesis.transactions);
    assert(later_transactions(ledger.blocks) + ledger.pending.transactions =~= Seq::empty());
}

/// Offering a transfer to a valid ledger leaves it valid, admitted or not.
pub proof fn lemma_offered_is_valid(ledger: LedgerView, tx: TransactionView)
    requires
        ledger.valid(),
    ensures
        ledger.offered(tx).valid(),
{
    reveal(LedgerView::valid);
    if transfer_outcome(ledger.accounts, tx) is Ok {
        let next = ledger.offered(tx);
        let before = later_transactions(ledger.blocks) + ledger.pending.transactions;
        let after = later_transactions(next.blocks) + next.pending.transactions;
        assert(after =~= before.push(tx));
        assert(after.drop_last() =~= before);
        lemma_transfer_keeps_supply(ledger.accounts, tx);
    }
}

/// Minting the pending block of a valid ledger leaves it valid, as long as
/// the chain's length is still a 64-bit index.
pub proof fn lemma_minted_is_valid(ledger: LedgerView, timestamp: u64)
    requires
        ledger.valid(),
        ledger.blocks.len() < u64::MAX,
    ensures
        ledger.minted(timestamp).valid(),
{
    reveal(LedgerView::valid);
    let next = ledger.minted(timestamp);
    let block = ledger.pending.sealed(timestamp);
    assert(next.blocks.drop_last() =~= ledger.blocks);
    assert(later_transactions(next.blocks) + next.pending.transactions =~= later_transactions(
        ledger.blocks,
    ) + ledger.pending.transactions);
    assert(block.check() is Ok);
    assert forall|i: int| 0 <= i < next.blocks.len() implies (#[trigger] next.blocks[i]).check() is Ok by {
        if i < ledger.blocks.len() {
            assert(next.blocks[i] == ledger.blocks[i]);
        }
    }
    assert forall|i: int| 1 <= i < next.blocks.len() implies (#[trigger] next.blocks[i]).previous_hash
        == next.blocks[i - 1].hash by {
        if i < ledger.blocks.len() {
            assert(next.blocks[i] == ledger.blocks[i]);
        }
    }
}

} // verus!
