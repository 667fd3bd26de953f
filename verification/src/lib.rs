//! Validation and state-transition core of a proof-of-work ledger.
//!
//! The engine in [`chain`] decides whether a block may extend the chain,
//! keeps the set of unspent outputs, and sets the mining target anew after
//! each retarget interval. The rules for a block's transactions are in
//! [`validation`]; the records themselves, their canonical encoding and
//! their hashes are in [`models`], [`cbor`], [`sha256`] and [`util`]. What
//! holds of all this, whatever the blocks, is stated and proved in [`laws`].

pub mod cbor;
pub mod chain;
pub mod constants;
pub mod crypto;
pub mod error;
pub mod laws;
pub mod models;
pub mod sha256;
pub mod time;
pub mod uint256;
pub mod util;
pub mod utxo;
pub mod validation;

pub use crate::uint256::U256;
