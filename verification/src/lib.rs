//! Verified core of the Chiral network node: ed2k link handling, Ethereum
//! account derivation, interpretation of Geth's JSON-RPC answers and logs,
//! and the bookkeeping of transfers and block scans.
use vstd::prelude::*;

pub mod account;
pub mod chain;
pub mod diagnostics;
pub mod ed2k_handler;
pub mod ed2k_link;
pub mod ed2k_transfer;
pub mod geth;
pub mod hashing;
pub mod registry;
pub mod rpc;
pub mod text;
pub mod wide;

verus! {
}
