//! The data model: hashes, coins, user intent, conditions and errors.

use vstd::prelude::*;

verus! {

/// A 32-byte hash value. Coin ids, puzzle hashes, asset ids and nonces are
/// all values of this shape.
#[derive(Clone, Copy, Debug, PartialEq, Eq, Hash)]
pub struct Hash32 {
    pub bytes: [u8; 32],
}

impl View for Hash32 {
    type V = Seq<u8>;

    open spec fn view(&self) -> Seq<u8> {
        self.bytes@
    }
}

/// An unspent value record: the immutable triple that identifies value on
/// chain. Its coin id is a deterministic hash of the triple.
#[derive(Clone, Copy, Debug, PartialEq, Eq)]
pub struct Coin {
    pub parent_coin_id: Hash32,
    pub puzzle_hash: Hash32,
    pub amount: u64,
}

/// A coin carrying a fungible token (CAT), together with the inner address
/// that controls it.
#[derive(Clone, Copy, Debug, PartialEq, Eq)]
pub struct CatCoin {
    pub coin: Coin,
    pub p2_puzzle_hash: Hash32,
}

/// The wallet's record of an offered NFT: its current coin and the layer
/// parameters needed to reconstruct and re-lock its puzzle.
#[derive(Clone, Debug, PartialEq, Eq)]
pub struct NftRecord {
    pub coin: Coin,
    pub launcher_id: Hash32,
    pub metadata: Vec<u8>,
    pub metadata_updater_puzzle_hash: Hash32,
    pub royalty_puzzle_hash: Hash32,
    pub royalty_ten_thousandths: u16,
    pub p2_puzzle_hash: Hash32,
}

/// User intent on the offered side: native currency, fungible tokens by
/// asset id, NFTs by launcher id, and a fee. Zero-amount CAT entries are
/// ignored throughout.
#[derive(Clone, Debug, PartialEq, Eq)]
pub struct OfferedCoins {
    pub xch: u64,
    pub cats: Vec<(Hash32, u64)>,
    pub nfts: Vec<Hash32>,
    pub fee: u64,
}

/// Layer parameters of a requested NFT, needed to reconstruct the puzzle
/// that a counterparty's payment must satisfy.
#[derive(Clone, Debug, PartialEq, Eq)]
pub struct RequestedNft {
    pub metadata: Vec<u8>,
    pub metadata_updater_puzzle_hash: Hash32,
    pub royalty_puzzle_hash: Hash32,
    pub royalty_ten_thousandths: u16,
}

/// User intent on the requested side: the mirror of `OfferedCoins`, with
/// per-NFT layer parameters instead of bare identifiers.
#[derive(Clone, Debug, PartialEq, Eq)]
pub struct OfferRequest {
    pub xch: u64,
    pub cats: Vec<(Hash32, u64)>,
    pub nfts: Vec<(Hash32, RequestedNft)>,
}

/// What one unit of requested value converts to for one asset kind:
/// an amount and the settlement-wrapped puzzle hash of that asset kind.
#[derive(Clone, Copy, Debug, PartialEq, Eq)]
pub struct TradePrice {
    pub amount: u64,
    pub puzzle_hash: Hash32,
}

/// Royalty rate inputs for one NFT.
#[derive(Clone, Copy, Debug, PartialEq, Eq)]
pub struct NftRoyaltyInfo {
    pub launcher_id: Hash32,
    pub royalty_puzzle_hash: Hash32,
    pub royalty_ten_thousandths: u16,
}

/// A royalty obligation derived from one (NFT, trade price) pair: who is
/// paid, through which settlement wrapper, and how much.
#[derive(Clone, Copy, Debug, PartialEq, Eq)]
pub struct RoyaltyPayment {
    pub nft_id: Hash32,
    pub p2_puzzle_hash: Hash32,
    pub settlement_puzzle_hash: Hash32,
    pub amount: u64,
}

/// A single payment inside a notarized payment bundle. `memos` is `None`
/// when the payment carries no memo field at all, which hashes differently
/// from an empty memo list.
#[derive(Clone, Debug, PartialEq, Eq)]
pub struct Payment {
    pub puzzle_hash: Hash32,
    pub amount: u64,
    pub memos: Option<Vec<Hash32>>,
}

/// An announcement assertion: the offered side cannot settle unless a
/// settlement coin creates the puzzle announcement with this id.
#[derive(Clone, Copy, Debug, PartialEq, Eq)]
pub struct Assertion {
    pub announcement_id: Hash32,
}

/// An on-chain condition attached to a coin spend.
#[derive(Clone, Debug, PartialEq, Eq)]
pub enum Condition {
    /// Create a child coin with the given puzzle hash, amount and memos.
    CreateCoin { puzzle_hash: Hash32, amount: u64, memos: Vec<Hash32> },
    /// Assert that the named coin is spent in the same transaction.
    AssertConcurrentSpend { coin_id: Hash32 },
    /// Assert that the named puzzle announcement is created in the same
    /// transaction.
    AssertPuzzleAnnouncement { announcement_id: Hash32 },
    /// Reserve the given amount as a transaction fee.
    ReserveFee { amount: u64 },
}

/// Why an offer build aborted. No partial state survives a failure.
#[derive(Clone, Copy, Debug, PartialEq, Eq)]
pub enum WalletError {
    /// Coin selection could not meet a requested amount.
    InsufficientFunds,
    /// An offered NFT is not present in the wallet's records.
    MissingNft(Hash32),
    /// A p2 puzzle hash has no known synthetic key.
    MissingKey(Hash32),
    /// Overflow, underflow or negative change: a selection or calculation
    /// invariant was violated upstream. Never silently clamped.
    ArithmeticFault,
    /// Puzzle construction failed in the collaborator capability.
    ConstructionFault,
}

/// The amounts of a sequence of coins, summed without bound.
pub open spec fn sum_coin_amounts(coins: Seq<Coin>) -> int
    decreases coins.len(),
{
    if coins.len() == 0 {
        0
    } else {
        sum_coin_amounts(coins.drop_last()) + coins.last().amount
    }
}

/// The amounts of a sequence of CAT coins, summed without bound.
pub open spec fn sum_cat_amounts(coins: Seq<CatCoin>) -> int
    decreases coins.len(),
{
    if coins.len() == 0 {
        0
    } else {
        sum_cat_amounts(coins.drop_last()) + coins.last().coin.amount
    }
}

/// The amounts of a sequence of royalty payments, summed without bound.
pub open spec fn sum_royalty_amounts(royalties: Seq<RoyaltyPayment>) -> int
    decreases royalties.len(),
{
    if royalties.len() == 0 {
        0
    } else {
        sum_royalty_amounts(royalties.drop_last()) + royalties.last().amount
    }
}

} // verus!
