//! A single-node ledger core: Merkle commitments over signed transactions,
//! proof-of-work mining, whole-chain validation and the longest-valid-chain
//! rule, with every function's behaviour stated as a contract.

pub mod block;
pub mod consensus;
pub mod encoding;
pub mod hashing;
pub mod ledger;
pub mod merkle;
pub mod pow;
pub mod signature;
pub mod transaction;
pub mod validation;

pub use block::Block;
pub use ledger::{Blockchain, LedgerError};
pub use signature::SigningError;
pub use transaction::Transaction;
