//! A minimal in-process cryptocurrency ledger.
//!
//! A single authority maintains an append-only chain of blocks, each sealed by
//! a proof-of-work nonce search over its canonical text form. Wallets hold
//! P-256 key pairs, derive a checksummed base-58 address from the public key,
//! and sign transfer requests; the ledger verifies signatures and available
//! balances before admitting a transaction to the pending pool, and seals the
//! pool into a new block, paying the miner a fixed reward.

pub mod block;
pub mod blockchain;
pub mod crypto;
pub mod text;
pub mod transaction;
pub mod wallet;
