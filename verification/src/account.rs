//! Accounts: a balance and a replay counter under an address.

use crate::crypto::PublicKey;
use vstd::prelude::*;
use vstd::std_specs::convert::FromSpecImpl;

verus! {

/// What an account holds.
pub struct AccountView {
    pub address: Seq<u8>,
    pub balance: u64,
    pub nonce: u64,
}

impl AccountView {
    /// The account that a first credit to `address` opens: nothing on it, and
    /// no transfer sent yet.
    pub open spec fn fresh(address: Seq<u8>) -> AccountView {
        AccountView { address, balance: 0, nonce: 0 }
    }
}

/// The balance and the replay counter of one address.
#[derive(Debug, Clone, Copy)]
pub struct Account {
    address: PublicKey,
    balance: u64,
    nonce: u64,
}

impl View for Account {
    type V = AccountView;

    closed spec fn view(&self) -> AccountView {
        AccountView { address: self.address@, balance: self.balance, nonce: self.nonce }
    }
}

impl From<PublicKey> for Account {
    fn from(address: PublicKey) -> (account: Account)
        ensures
            account@ == AccountView::fresh(address@),
    {
        Account { address, balance: 0, nonce: 0 }
    }
}

impl FromSpecImpl<PublicKey> for Account {
    open spec fn obeys_from_spec() -> bool {
        true
    }

    closed spec fn from_spec(address: PublicKey) -> Account {
        Account { address, balance: 0, nonce: 0 }
    }
}

impl Account {
    /// A fresh account under `address`.
    pub fn new(address: &PublicKey) -> (account: Account)
        ensures
            account@ == AccountView::fresh(address@),
    {
        Account { address: *address, balance: 0, nonce: 0 }
    }

    /// The address of the account.
    pub fn address(&self) -> (address: PublicKey)
        ensures
            address@ == self@.address,
    {
        self.address
    }

    /// The units on the account.
    pub fn balance(&self) -> (balance: u64)
        ensures
            balance == self@.balance,
    {
        self.balance
    }

    /// The nonce that the next transfer sent from the account has to carry.
    pub fn nonce(&self) -> (nonce: u64)
        ensures
            nonce == self@.nonce,
    {
        self.nonce
    }

    /// Advances the replay counter by one.
    pub fn increment_nonce(&mut self)
        requires
            old(self)@.nonce < u64::MAX,
        ensures
            final(self)@ == (AccountView { nonce: (old(self)@.nonce + 1) as u64, ..old(self)@ }),
    {
        self.nonce += 1;
    }

    /// Takes `amount` units off the account.
    pub fn transfer(&mut self, amount: u64)
        requires
            amount <= old(self)@.balance,
        ensures
            final(self)@ == (AccountView {
                balance: (old(self)@.balance - amount) as u64,
                ..old(self)@
            }),
    {
        self.balance -= amount;
    }

    /// Puts `amount` units on the account.
    pub fn deposit(&mut self, amount: u64)
        requires
            old(self)@.balance + amount <= u64::MAX,
        ensures
            final(self)@ == (AccountView {
                balance: (old(self)@.balance + amount) as u64,
                ..old(self)@
            }),
    {
        self.balance += amount;
    }
}

} // verus!
