//! The requested side of an offer.
//!
//! The builder is seeded with the offer's nonce and accumulates requested
//! payments: each request reconstructs the puzzle a counterparty's payment
//! must satisfy — the bare settlement puzzle for currency, the CAT layer
//! over it for a token, the full NFT layer stack over it for an NFT — and
//! records the announcement assertion that binds the offered side to that
//! payment. Each request is a pure transformation of the builder.

use vstd::prelude::*;

use crate::assemble::assertion_ids;
use crate::hashes::{
    cat_curry_hash, cat_curry_hash_of, nft_ownership_hash, nft_ownership_hash_of, nft_state_hash,
    nft_state_hash_of, notarized_payment_hash, payment_announcement_id, payment_announcement_of,
    payment_views, program_tree_hash, program_tree_hash_of, royalty_transfer_hash,
    royalty_transfer_hash_of, settlement_payments_hash, settlement_puzzle_hash, singleton_hash,
    singleton_hash_of, tree_parses,
};
use crate::types::{Assertion, Hash32, Payment, RequestedNft, WalletError};

verus! {

/// The closed set of puzzles a payment can be requested against,
/// dispatched by asset kind.
#[derive(Clone, Debug, PartialEq, Eq)]
pub enum RequestedPuzzle {
    /// The bare settlement puzzle: native currency.
    Xch,
    /// The CAT layer curried with the asset id over the settlement puzzle.
    Cat { asset_id: Hash32 },
    /// The full NFT layer stack, with the settlement puzzle as the inner
    /// puzzle and no current owner.
    Nft { launcher_id: Hash32, info: RequestedNft },
}

/// One accumulated request: the puzzle and the payments it must make.
#[derive(Clone, Debug, PartialEq, Eq)]
pub struct RequestedPayment {
    pub puzzle: RequestedPuzzle,
    pub payments: Vec<Payment>,
}

/// The hash of the puzzle a requested NFT is reconstructed into: the
/// singleton top layer over the state layer over the ownership layer with
/// the one-way royalty transfer program, all the way down to the
/// settlement puzzle, with no current owner.
pub open spec fn nft_request_hash_spec(launcher_id: Hash32, info: RequestedNft) -> Seq<u8> {
    singleton_hash_of(
        launcher_id@,
        nft_state_hash_of(
            program_tree_hash_of(info.metadata@),
            info.metadata_updater_puzzle_hash@,
            nft_ownership_hash_of(
                None,
                royalty_transfer_hash_of(
                    launcher_id@,
                    info.royalty_puzzle_hash@,
                    info.royalty_ten_thousandths,
                ),
                settlement_payments_hash(),
            ),
        ),
    )
}

/// The hash of the puzzle each variant reconstructs.
pub open spec fn requested_puzzle_hash_spec(p: RequestedPuzzle) -> Seq<u8> {
    match p {
        RequestedPuzzle::Xch => settlement_payments_hash(),
        RequestedPuzzle::Cat { asset_id } => cat_curry_hash_of(
            asset_id@,
            settlement_payments_hash(),
        ),
        RequestedPuzzle::Nft { launcher_id, info } => nft_request_hash_spec(launcher_id, info),
    }
}

/// Whether a requested puzzle can be reconstructed: only an NFT's
/// metadata can fail, and only by not parsing.
pub open spec fn requested_puzzle_parses(p: RequestedPuzzle) -> bool {
    match p {
        RequestedPuzzle::Nft { info, .. } => tree_parses(info.metadata@),
        _ => true,
    }
}

/// Reconstruct the puzzle hash of a requested asset. Succeeds exactly
/// when the puzzle can be reconstructed; the one failure, NFT metadata
/// that does not parse, is a construction fault.
pub fn requested_puzzle_hash(p: &RequestedPuzzle) -> (r: Result<Hash32, WalletError>)
    ensures
        r is Ok <==> requested_puzzle_parses(*p),
        match r {
            Ok(h) => h@ == requested_puzzle_hash_spec(*p),
            Err(e) => e == WalletError::ConstructionFault && p is Nft,
        },
{
    match p {
        RequestedPuzzle::Xch => Ok(settlement_puzzle_hash()),
        RequestedPuzzle::Cat { asset_id } => {
            let settlement = settlement_puzzle_hash();
            Ok(cat_curry_hash(asset_id, &settlement))
        },
        RequestedPuzzle::Nft { launcher_id, info } => {
            let metadata_hash = match program_tree_hash(&info.metadata) {
                Ok(h) => h,
                Err(e) => {
                    return Err(e);
                },
            };
            let settlement = settlement_puzzle_hash();
            let transfer = royalty_transfer_hash(
                launcher_id,
                &info.royalty_puzzle_hash,
                info.royalty_ten_thousandths,
            );
            let ownership = nft_ownership_hash(None, &transfer, &settlement);
            let state = nft_state_hash(
                &metadata_hash,
                &info.metadata_updater_puzzle_hash,
                &ownership,
            );
            Ok(singleton_hash(launcher_id, &state))
        },
    }
}

/// The requested side of an offer under construction: the binding nonce,
/// the payments requested so far, and the announcement assertions the
/// offered side must satisfy.
#[derive(Clone, Debug, PartialEq, Eq)]
pub struct OfferBuilder {
    pub nonce: Hash32,
    pub requested_payments: Vec<RequestedPayment>,
    pub assertions: Vec<Assertion>,
}

impl OfferBuilder {
    /// Start building the requested side, bound to a nonce. Every
    /// requested-payment puzzle embeds this nonce, so payments can only
    /// satisfy this specific offer.
    pub fn new(nonce: Hash32) -> (r: OfferBuilder)
        ensures
            r.nonce == nonce,
            r.requested_payments@.len() == 0,
            r.assertions@.len() == 0,
    {
        OfferBuilder { nonce, requested_payments: Vec::new(), assertions: Vec::new() }
    }

    /// Append one requested payment: reconstruct the asset's puzzle,
    /// notarize the payments under the builder's nonce, and record the
    /// announcement assertion that forces the payment to be made.
    pub fn request(self, puzzle: RequestedPuzzle, payments: Vec<Payment>) -> (r: Result<
        OfferBuilder,
        WalletError,
    >)
        ensures
            r is Ok <==> requested_puzzle_parses(puzzle),
            match r {
                Ok(b) => {
                    &&& b.nonce == self.nonce
                    &&& b.requested_payments@ == self.requested_payments@.push(
                        RequestedPayment { puzzle, payments },
                    )
                    &&& assertion_ids(b.assertions@) == assertion_ids(self.assertions@).push(
                        payment_announcement_of(
                            requested_puzzle_hash_spec(puzzle),
                            self.nonce@,
                            payment_views(payments@),
                        ),
                    )
                },
                Err(e) => e == WalletError::ConstructionFault && puzzle is Nft,
            },
    {
        let puzzle_hash = match requested_puzzle_hash(&puzzle) {
            Ok(h) => h,
            Err(e) => {
                return Err(e);
            },
        };
        let announcement_id = payment_announcement_id(&puzzle_hash, &self.nonce, &payments);
        let OfferBuilder { nonce, mut requested_payments, mut assertions } = self;
        let ghost payments0 = payments@;
        let ghost assertions0 = assertions@;
        requested_payments.push(RequestedPayment { puzzle, payments });
        assertions.push(Assertion { announcement_id });
        proof {
            assert(assertion_ids(assertions@) =~~= assertion_ids(assertions0).push(
                announcement_id@,
            ));
        }
        Ok(OfferBuilder { nonce, requested_payments, assertions })
    }

    /// Finish the requested side: hand out the accumulated assertions, to
    /// be attached to the offered coins, and a terminal builder that keeps
    /// the nonce and the requested payments for later encoding.
    pub fn finish(self) -> (r: (Vec<Assertion>, OfferBuilder))
        ensures
            r.0@ == self.assertions@,
            r.1.nonce == self.nonce,
            r.1.requested_payments@ == self.requested_payments@,
            r.1.assertions@.len() == 0,
    {
        let OfferBuilder { nonce, requested_payments, assertions } = self;
        (assertions, OfferBuilder { nonce, requested_payments, assertions: Vec::new() })
    }
}

} // verus!
