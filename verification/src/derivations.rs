//! Decisions of the key-derivation store.
//!
//! The store itself is SQL I/O and lives with the I/O layer; the arithmetic
//! it applies to its query results stands here.

use vstd::prelude::*;

use crate::types::WalletError;

verus! {

/// The next unused derivation index, given the highest index the store
/// holds: zero for an empty store, one past the maximum otherwise. Fails
/// with `ArithmeticFault` when the successor does not fit the index type.
pub fn next_derivation_index(max_index: Option<u32>) -> (r: Result<u32, WalletError>)
    ensures
        match r {
            Ok(i) => match max_index {
                Some(m) => m < u32::MAX && i == m + 1,
                None => i == 0,
            },
            Err(e) => e == WalletError::ArithmeticFault && max_index == Some(u32::MAX),
        },
{
    match max_index {
        Some(m) => {
            if m == u32::MAX {
                Err(WalletError::ArithmeticFault)
            } else {
                Ok(m + 1)
            }
        },
        None => Ok(0),
    }
}

/// Whether a puzzle hash is one of the wallet's own receive addresses,
/// given how many derivation rows match it.
pub fn is_known_puzzle_hash(match_count: u64) -> (r: bool)
    ensures
        r == (match_count > 0),
{
    match_count > 0
}

} // verus!
