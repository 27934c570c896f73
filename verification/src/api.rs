//! Request shapes of the wallet's API surface. These are pure data; the
//! serialized copies with wire-format derives live with the I/O layer.

use vstd::prelude::*;

verus! {

/// Request the NFTs known to the wallet with the given key fingerprint.
#[derive(Clone, Copy, Debug, PartialEq, Eq, Structural)]
pub struct GetNfts {
    pub fingerprint: u32,
}

/// Log in to the wallet with the given key fingerprint.
#[derive(Clone, Copy, Debug, PartialEq, Eq, Structural)]
pub struct Login {
    pub fingerprint: u32,
}

} // verus!
