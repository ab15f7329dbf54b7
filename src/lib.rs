//! A minimal single-node ledger: accounts named by secp256k1 public keys,
//! value transfers between them, and a chain of blocks extended by a
//! proof-of-work search whose hashes link each block to its predecessor.
pub mod account;
pub mod balances;
pub mod block;
pub mod blockchain;

pub mod bytes;
pub mod message;
pub mod pow;
pub mod transaction;
pub mod laws;
