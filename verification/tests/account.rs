use account_ledger::account::Account;
use account_ledger::crypto::generate_keypair_from_secret;

#[test]
fn new_account_is_empty() {
    let (_, address) = generate_keypair_from_secret(b"alice");
    let account = Account::new(&address);
    assert_eq!(account.address(), address);
    assert_eq!(account.balance(), 0);
    assert_eq!(account.nonce(), 0);
}

#[test]
fn account_from_address_is_new() {
    let (_, address) = generate_keypair_from_secret(b"alice");
    let account = Account::from(address);
    assert_eq!(account.address(), address);
    assert_eq!(account.balance(), 0);
    assert_eq!(account.nonce(), 0);
}

#[test]
fn deposit_transfer_and_nonce_change_one_field_each() {
    let (_, address) = generate_keypair_from_secret(b"alice");
    let mut account = Account::new(&address);
    account.deposit(1000);
    assert_eq!(account.balance(), 1000);
    assert_eq!(account.nonce(), 0);
    account.transfer(300);
    assert_eq!(account.balance(), 700);
    assert_eq!(account.nonce(), 0);
    account.increment_nonce();
    assert_eq!(account.balance(), 700);
    assert_eq!(account.nonce(), 1);
    assert_eq!(account.address(), address);
    account.transfer(700);
    assert_eq!(account.balance(), 0);
    account.deposit(u64::MAX);
    assert_eq!(account.balance(), u64::MAX);
}
