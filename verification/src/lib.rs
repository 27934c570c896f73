//! Offer construction engine for a UTXO-style wallet.
//!
//! The library turns a user's intent ("I offer these assets, I want those
//! assets") into a value-conserving, atomically-linked unsigned spend plan:
//! it computes NFT trade prices and royalties, selects exact-or-greater coin
//! sets, links independently owned coins into one atomically settling unit
//! with a ring of concurrent-spend assertions, and emits the concrete
//! outputs and conditions for every spent coin.

use vstd::prelude::*;

pub mod api;
pub mod assemble;
pub mod builder;
pub mod derivations;
pub mod hashes;
pub mod linker;
pub mod offer;
pub mod royalty;
pub mod select;
pub mod types;
