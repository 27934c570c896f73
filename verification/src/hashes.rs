//! The deterministic hashes the engine relies on.
//!
//! Every value here is a pure function of its arguments: coin ids, curried
//! puzzle hashes, tree hashes and announcement digests. The hashing itself
//! is done by the `chia` crate; each wrapper names the function relied on,
//! and the uninterpreted spec functions name the results so that the
//! engine's contracts can speak of them exactly.

use vstd::prelude::*;

use chia::protocol::{Bytes32, Coin as ChiaCoin};
use chia::puzzles::cat::CatArgs;
use chia::puzzles::nft::{NftOwnershipLayerArgs, NftRoyaltyTransferPuzzleArgs, NftStateLayerArgs};
use chia::puzzles::offer::{NotarizedPayment, Payment as ChiaPayment};
use chia::puzzles::singleton::SingletonArgs;
use chia::puzzles::Memos;
use chia::sha2::Sha256;
use chia::clvm_utils::{tree_hash_from_bytes, CurriedProgram, ToTreeHash, TreeHash};

use crate::types::{Coin, Hash32, Payment, WalletError};

verus! {

/// The id of the coin with the given parent id, puzzle hash and amount.
pub uninterp spec fn coin_id_of(parent: Seq<u8>, puzzle_hash: Seq<u8>, amount: u64) -> Seq<u8>;

/// The SHA-256 digest of a byte string.
pub uninterp spec fn sha256_of(data: Seq<u8>) -> Seq<u8>;

/// The nonce binding an offer to an ordered list of coin ids: the tree
/// hash of that list.
pub uninterp spec fn nonce_of(coin_ids: Seq<Seq<u8>>) -> Seq<u8>;

/// The hash of the CAT layer curried with an asset id over an inner puzzle.
pub uninterp spec fn cat_curry_hash_of(asset_id: Seq<u8>, inner: Seq<u8>) -> Seq<u8>;

/// The hash of the royalty transfer program curried for one NFT.
pub uninterp spec fn royalty_transfer_hash_of(
    launcher_id: Seq<u8>,
    royalty_puzzle_hash: Seq<u8>,
    royalty_ten_thousandths: u16,
) -> Seq<u8>;

/// The hash of the NFT ownership layer curried over a transfer program and
/// an inner puzzle.
pub uninterp spec fn nft_ownership_hash_of(
    current_owner: Option<Seq<u8>>,
    transfer_program: Seq<u8>,
    inner: Seq<u8>,
) -> Seq<u8>;

/// The hash of the NFT state layer curried over metadata and an inner
/// puzzle.
pub uninterp spec fn nft_state_hash_of(
    metadata_hash: Seq<u8>,
    metadata_updater_puzzle_hash: Seq<u8>,
    inner: Seq<u8>,
) -> Seq<u8>;

/// The hash of the singleton top layer curried for a launcher id over an
/// inner puzzle.
pub uninterp spec fn singleton_hash_of(launcher_id: Seq<u8>, inner: Seq<u8>) -> Seq<u8>;

/// The tree hash of a serialized program.
pub uninterp spec fn program_tree_hash_of(program: Seq<u8>) -> Seq<u8>;

/// Whether a byte string parses as a serialized program. Parsing is a
/// function of the bytes alone, so success can be named.
pub uninterp spec fn tree_parses(program: Seq<u8>) -> bool;

/// The tree hash of a notarized payment bundle.
pub uninterp spec fn notarized_payment_hash_of(
    nonce: Seq<u8>,
    payments: Seq<(Seq<u8>, u64, Option<Seq<Seq<u8>>>)>,
) -> Seq<u8>;

/// The view of a payment list as (puzzle hash, amount, memos) triples.
pub open spec fn payment_views(payments: Seq<Payment>) -> Seq<
    (Seq<u8>, u64, Option<Seq<Seq<u8>>>),
> {
    payments.map_values(
        |p: Payment|
            (
                p.puzzle_hash@,
                p.amount,
                match p.memos {
                    Some(memos) => Some(memos@.map_values(|m: Hash32| m@)),
                    None => None,
                },
            ),
    )
}

/// The tree hash of the settlement payments puzzle: the neutral puzzle
/// that releases a coin's value only against matching notarized payments.
pub open spec fn settlement_payments_hash() -> Seq<u8> {
    seq![
        0xcfu8, 0xbf, 0xde, 0xed, 0x5c, 0x4c, 0xa2, 0xde, 0x3d, 0x0b, 0xf5, 0x20, 0xb9, 0xcb,
        0x4b, 0xb7, 0x74, 0x3a, 0x35, 0x9b, 0xd2, 0xe6, 0xa1, 0x88, 0xd1, 0x9c, 0xe7, 0xdf,
        0xfc, 0x21, 0xd3, 0xe7,
    ]
}

/// The settlement payments puzzle hash as a value.
pub fn settlement_puzzle_hash() -> (r: Hash32)
    ensures
        r@ == settlement_payments_hash(),
        r@.len() == 32,
{
    let bytes: [u8; 32] = [
        0xcf, 0xbf, 0xde, 0xed, 0x5c, 0x4c, 0xa2, 0xde, 0x3d, 0x0b, 0xf5, 0x20, 0xb9, 0xcb,
        0x4b, 0xb7, 0x74, 0x3a, 0x35, 0x9b, 0xd2, 0xe6, 0xa1, 0x88, 0xd1, 0x9c, 0xe7, 0xdf,
        0xfc, 0x21, 0xd3, 0xe7,
    ];
    proof {
        assert(bytes@ =~= settlement_payments_hash());
    }
    Hash32 { bytes }
}

/// The id of the puzzle announcement that a coin with the given puzzle
/// hash creates for a given message: the digest of the two concatenated.
pub open spec fn announcement_id_of(puzzle_hash: Seq<u8>, message: Seq<u8>) -> Seq<u8> {
    sha256_of(puzzle_hash + message)
}

/// The announcement id that settles one notarized payment bundle against
/// the puzzle with the given hash.
pub open spec fn payment_announcement_of(
    puzzle_hash: Seq<u8>,
    nonce: Seq<u8>,
    payments: Seq<(Seq<u8>, u64, Option<Seq<Seq<u8>>>)>,
) -> Seq<u8> {
    announcement_id_of(puzzle_hash, notarized_payment_hash_of(nonce, payments))
}

/// The announcement id asserting that the puzzle with the given hash pays
/// the given notarized payment bundle.
pub fn payment_announcement_id(
    puzzle_hash: &Hash32,
    nonce: &Hash32,
    payments: &Vec<Payment>,
) -> (r: Hash32)
    ensures
        r@ == payment_announcement_of(puzzle_hash@, nonce@, payment_views(payments@)),
{
    let message = notarized_payment_hash(nonce, payments);
    let mut data: Vec<u8> = Vec::new();
    let mut i: usize = 0;
    while i < 32
        invariant
            i <= 32,
            data@ == puzzle_hash@.take(i as int),
        decreases 32 - i,
    {
        data.push(puzzle_hash.bytes[i]);
        proof {
            assert(data@ =~= puzzle_hash@.take(i + 1 as int));
        }
        i = i + 1;
    }
    assert(data@ =~= puzzle_hash@);
    let ghost prefix = data@;
    let mut j: usize = 0;
    let message_bytes = message.bytes;
    while j < 32
        invariant
            j <= 32,
            message_bytes@ == message@,
            data@ == prefix + message@.take(j as int),
        decreases 32 - j,
    {
        data.push(message_bytes[j]);
        proof {
            assert(data@ =~= prefix + message@.take(j + 1 as int));
        }
        j = j + 1;
    }
    assert(data@ =~= puzzle_hash@ + message@);
    sha256(&data)
}

/// Relies on `chia::protocol::Coin::coin_id`: the coin id is a digest of
/// the (parent id, puzzle hash, amount) triple and of nothing else.
#[verifier::external_body]
pub(crate) fn coin_id(coin: &Coin) -> (r: Hash32)
    ensures
        r@ == coin_id_of(coin.parent_coin_id@, coin.puzzle_hash@, coin.amount),
        r@.len() == 32,
{
    let c = ChiaCoin::new(
        Bytes32::new(coin.parent_coin_id.bytes),
        Bytes32::new(coin.puzzle_hash.bytes),
        coin.amount,
    );
    Hash32 { bytes: c.coin_id().to_bytes() }
}

/// Relies on `chia_sha2::Sha256`: one digest over the whole input, a
/// function of the input bytes alone.
#[verifier::external_body]
pub(crate) fn sha256(data: &Vec<u8>) -> (r: Hash32)
    ensures
        r@ == sha256_of(data@),
        r@.len() == 32,
{
    let mut hasher = Sha256::new();
    hasher.update(data.as_slice());
    Hash32 { bytes: hasher.finalize() }
}

/// Relies on `clvm_utils::ToTreeHash` for `Vec<Bytes32>`: the tree hash of
/// the id list depends on the ids and their order alone.
#[verifier::external_body]
pub(crate) fn offer_nonce(coin_ids: &Vec<Hash32>) -> (r: Hash32)
    ensures
        r@ == nonce_of(coin_ids@.map_values(|id: Hash32| id@)),
        r@.len() == 32,
{
    let ids: Vec<Bytes32> = coin_ids.iter().map(|id| Bytes32::new(id.bytes)).collect();
    Hash32 { bytes: ids.tree_hash().to_bytes() }
}

/// Relies on `chia_puzzle_types::cat::CatArgs::curry_tree_hash`: the hash
/// of the CAT layer curried with the asset id over the inner puzzle.
#[verifier::external_body]
pub(crate) fn cat_curry_hash(asset_id: &Hash32, inner: &Hash32) -> (r: Hash32)
    ensures
        r@ == cat_curry_hash_of(asset_id@, inner@),
        r@.len() == 32,
{
    let h = CatArgs::curry_tree_hash(
        Bytes32::new(asset_id.bytes),
        TreeHash::new(inner.bytes),
    );
    Hash32 { bytes: h.to_bytes() }
}

/// Relies on `NftRoyaltyTransferPuzzleArgs::curry_tree_hash`: the hash of
/// the one-way-claim-with-royalties transfer program curried for one NFT.
#[verifier::external_body]
pub(crate) fn royalty_transfer_hash(
    launcher_id: &Hash32,
    royalty_puzzle_hash: &Hash32,
    royalty_ten_thousandths: u16,
) -> (r: Hash32)
    ensures
        r@ == royalty_transfer_hash_of(launcher_id@, royalty_puzzle_hash@, royalty_ten_thousandths),
        r@.len() == 32,
{
    let h = NftRoyaltyTransferPuzzleArgs::curry_tree_hash(
        Bytes32::new(launcher_id.bytes),
        Bytes32::new(royalty_puzzle_hash.bytes),
        royalty_ten_thousandths,
    );
    Hash32 { bytes: h.to_bytes() }
}

/// Relies on `NftOwnershipLayerArgs::curry_tree_hash`: the hash of the
/// ownership layer curried over an owner, a transfer program and an inner
/// puzzle.
#[verifier::external_body]
pub(crate) fn nft_ownership_hash(
    current_owner: Option<Hash32>,
    transfer_program: &Hash32,
    inner: &Hash32,
) -> (r: Hash32)
    ensures
        r@ == nft_ownership_hash_of(
            match current_owner {
                Some(o) => Some(o@),
                None => None,
            },
            transfer_program@,
            inner@,
        ),
        r@.len() == 32,
{
    let h = NftOwnershipLayerArgs::curry_tree_hash(
        current_owner.map(|o| Bytes32::new(o.bytes)),
        TreeHash::new(transfer_program.bytes),
        TreeHash::new(inner.bytes),
    );
    Hash32 { bytes: h.to_bytes() }
}

/// Relies on `clvm_utils::ToTreeHash` for a `CurriedProgram` over
/// `NftStateLayerArgs`: the hash of the state layer curried over metadata,
/// a metadata updater and an inner puzzle.
#[verifier::external_body]
pub(crate) fn nft_state_hash(
    metadata_hash: &Hash32,
    metadata_updater_puzzle_hash: &Hash32,
    inner: &Hash32,
) -> (r: Hash32)
    ensures
        r@ == nft_state_hash_of(metadata_hash@, metadata_updater_puzzle_hash@, inner@),
        r@.len() == 32,
{
    let mut args: NftStateLayerArgs<TreeHash, TreeHash> = NftStateLayerArgs::new(
        TreeHash::new(metadata_hash.bytes),
        TreeHash::new(inner.bytes),
    );
    args.metadata_updater_puzzle_hash = Bytes32::new(metadata_updater_puzzle_hash.bytes);
    let mod_hash = TreeHash::new(args.mod_hash.to_bytes());
    let h = CurriedProgram { program: mod_hash, args }.tree_hash();
    Hash32 { bytes: h.to_bytes() }
}

/// Relies on `SingletonArgs::curry_tree_hash`: the hash of the singleton
/// top layer curried for a launcher id over an inner puzzle.
#[verifier::external_body]
pub(crate) fn singleton_hash(launcher_id: &Hash32, inner: &Hash32) -> (r: Hash32)
    ensures
        r@ == singleton_hash_of(launcher_id@, inner@),
        r@.len() == 32,
{
    let h = SingletonArgs::curry_tree_hash(
        Bytes32::new(launcher_id.bytes),
        TreeHash::new(inner.bytes),
    );
    Hash32 { bytes: h.to_bytes() }
}

/// Relies on `clvm_utils::tree_hash_from_bytes`: the tree hash of a
/// serialized program, or a parse failure mapped to `ConstructionFault`.
/// Whether the bytes parse depends on the bytes alone.
#[verifier::external_body]
pub(crate) fn program_tree_hash(program: &Vec<u8>) -> (r: Result<Hash32, WalletError>)
    ensures
        r is Ok <==> tree_parses(program@),
        match r {
            Ok(h) => h@ == program_tree_hash_of(program@) && h@.len() == 32,
            Err(e) => e == WalletError::ConstructionFault,
        },
{
    match tree_hash_from_bytes(program.as_slice()) {
        Ok(h) => Ok(Hash32 { bytes: h.to_bytes() }),
        Err(_) => Err(WalletError::ConstructionFault),
    }
}

/// Relies on `clvm_utils::ToTreeHash` for `NotarizedPayment`: the tree
/// hash of a notarized payment bundle depends on the nonce and the
/// payments alone.
#[verifier::external_body]
pub(crate) fn notarized_payment_hash(nonce: &Hash32, payments: &Vec<Payment>) -> (r: Hash32)
    ensures
        r@ == notarized_payment_hash_of(nonce@, payment_views(payments@)),
        r@.len() == 32,
{
    let np: NotarizedPayment<Vec<Bytes32>> = NotarizedPayment {
        nonce: Bytes32::new(nonce.bytes),
        payments: payments.iter().map(|p| ChiaPayment {
            puzzle_hash: Bytes32::new(p.puzzle_hash.bytes),
            amount: p.amount,
            memos: match &p.memos {
                Some(memos) => Memos::Some(memos.iter().map(|m| Bytes32::new(m.bytes)).collect()),
                None => Memos::None,
            },
        }).collect(),
    };
    Hash32 { bytes: np.tree_hash().to_bytes() }
}

} // verus!
