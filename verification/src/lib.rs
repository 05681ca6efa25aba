//! A UTXO-style transaction core: coinbase and spend construction, a
//! canonical byte encoding hashed into the transaction id, per-input
//! sighash messages, and ed25519 signing and verification of spends.

pub mod address;
mod codec;
mod entropy;
pub mod errors;
pub mod hashing;
pub mod laws;
pub mod model;
pub mod signing;
pub mod transaction;
