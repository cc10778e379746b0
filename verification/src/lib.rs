//! State-transition core of an account-based ledger: hashing and signatures,
//! Merkle aggregation, signed transfers, hash-linked blocks and the ledger
//! that replays transfers against account balances.
//!
//! The digest type is reached by its path, `crypto::Hash`; the other items
//! are also found at the crate's root.

pub mod account;
pub mod block;
pub mod blockchain;
pub mod clock;
pub mod crypto;
pub mod encoding;
pub mod ledger;
pub mod merkle;
pub mod transaction;
pub mod utils;

pub use crate::account::Account;
pub use crate::block::Block;
pub use crate::block::BlockBuilder;
pub use crate::block::BlockError;
pub use crate::blockchain::Blockchain;
pub use crate::crypto::generate_keypair;
pub use crate::crypto::generate_keypair_from_secret;
pub use crate::crypto::is_valid_secret_key;
pub use crate::crypto::sign_hash;
pub use crate::crypto::try_generate_keypair_from_secret;
pub use crate::crypto::verify_signature;
pub use crate::crypto::CryptoError;
pub use crate::crypto::PrivateKey;
pub use crate::crypto::PublicKey;
pub use crate::crypto::Signature;
pub use crate::ledger::LedgerError;
pub use crate::merkle::root_hash;
pub use crate::transaction::Transaction;
