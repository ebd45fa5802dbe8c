//! Tracks what a wallet needs to know of the block chain.
//!
//! [`sparse_chain`] holds the chain: some of its blocks, and where transactions were seen.
//! [`keychain`] holds the changes to the derivation indices of a wallet's keychains and to its
//! chain. [`electrum`] decides what is asked of an Electrum server.

use vstd::prelude::*;

pub mod balance;
pub mod block;
pub mod chain_graph;
pub mod collections;
pub mod electrum;
pub mod hash;
pub mod keychain;
pub mod sparse_chain;
pub mod text;
pub mod tx_graph;

pub use block::{BlockId, TxHeight};

verus! {

} // verus!
