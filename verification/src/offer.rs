//! Building an offer end to end.
//!
//! `make_offer` turns the user's intent and the collaborator-selected
//! coins into the unsigned offer artifact: it computes trade prices and
//! royalties for both sides, derives the nonce from the exact coin set
//! being offered, accumulates the requested payments, and assembles the
//! offered side's spends. Coin selection and record lookup are the
//! caller's collaborators; their results come in as plain values.

use vstd::prelude::*;

use crate::assemble::{
    cats_fault, coin_id_view, royalty_spend_ok, royalty_spend_view_ok, spend_assets, xch_change,
    xch_fault, CatOfferSpend, NftOfferSpend, OfferSpend, PlannedSpend,
};
use crate::builder::{OfferBuilder, RequestedPayment, RequestedPuzzle};
use crate::hashes::{payment_views, tree_parses};
use crate::hashes::{coin_id, nonce_of, offer_nonce};
use crate::royalty::{
    all_royalties_spec, calculate_asset_prices, calculate_asset_royalties,
    calculate_royalty_assertions, lemma_royalty_sums_agree, positive_cats, royalty_amount_sum,
    royalty_overflows, royalty_views, trade_price_views, trade_prices_spec,
};
use crate::types::{
    sum_coin_amounts, CatCoin, Coin, Hash32, NftRecord, NftRoyaltyInfo, OfferRequest,
    OfferedCoins, Payment, RoyaltyPayment, TradePrice, WalletError,
};

verus! {

/// What the coin-selection and record-lookup collaborators supplied for
/// one build: the currency coins, one coin group per positive CAT entry
/// of the offered side (in that order), and one record lookup result per
/// offered NFT (in that order).
#[derive(Clone, Debug, PartialEq, Eq)]
pub struct OfferSelection {
    pub p2_coins: Vec<Coin>,
    pub cat_coins: Vec<Vec<CatCoin>>,
    pub nfts: Vec<Option<NftRecord>>,
}

/// The terminal artifact: the planned spends of the offered side plus the
/// residual requested-side state, ready for signing and encoding. It is
/// not mutated further.
#[derive(Clone, Debug, PartialEq, Eq)]
pub struct UnsignedOffer {
    pub coin_spends: Vec<PlannedSpend>,
    pub builder: OfferBuilder,
}

/// The royalty rate inputs of the requested NFTs, in request order.
pub open spec fn requested_royalty_infos(requested: OfferRequest) -> Seq<NftRoyaltyInfo> {
    requested.nfts@.map_values(
        |p: (Hash32, crate::types::RequestedNft)|
            NftRoyaltyInfo {
                launcher_id: p.0,
                royalty_puzzle_hash: p.1.royalty_puzzle_hash,
                royalty_ten_thousandths: p.1.royalty_ten_thousandths,
            },
    )
}

/// The royalty payments the offeror owes, at the view level: one per
/// (requested NFT, offered trade price) pair with a nonzero amount.
pub open spec fn royalties_we_pay_views(offered: OfferedCoins, requested: OfferRequest) -> Seq<
    (Seq<u8>, Seq<u8>, Seq<u8>, int),
> {
    all_royalties_spec(
        requested_royalty_infos(requested),
        trade_prices_spec(requested.nfts@.len() as int, offered.xch, offered.cats@),
    )
}

/// Whether computing the offeror's royalties overflows an amount.
pub open spec fn we_pay_overflow(offered: OfferedCoins, requested: OfferRequest) -> bool {
    royalty_overflows(
        requested_royalty_infos(requested),
        trade_prices_spec(requested.nfts@.len() as int, offered.xch, offered.cats@),
    )
}

/// Whether some offered NFT has no record in the selection.
pub open spec fn missing_nft(offered: OfferedCoins, selection: OfferSelection) -> bool {
    exists|i: int| 0 <= i < offered.nfts@.len() && (#[trigger] selection.nfts@[i]) is None
}

/// The royalty rate inputs of the offered NFTs, by resolved record. Only
/// meaningful where no record is missing.
pub open spec fn offered_royalty_infos(selection: OfferSelection) -> Seq<NftRoyaltyInfo> {
    selection.nfts@.map_values(
        |o: Option<NftRecord>|
            match o {
                Some(n) => NftRoyaltyInfo {
                    launcher_id: n.launcher_id,
                    royalty_puzzle_hash: n.royalty_puzzle_hash,
                    royalty_ten_thousandths: n.royalty_ten_thousandths,
                },
                None => arbitrary(),
            },
    )
}

/// Whether computing the counterparty's royalties, for the offered NFTs
/// against the requested side's trade prices, overflows an amount.
pub open spec fn they_pay_overflow(
    offered: OfferedCoins,
    requested: OfferRequest,
    selection: OfferSelection,
) -> bool {
    royalty_overflows(
        offered_royalty_infos(selection),
        trade_prices_spec(offered.nfts@.len() as int, requested.xch, requested.cats@),
    )
}

/// Whether every requested NFT's metadata parses as a serialized program.
pub open spec fn requested_metadata_parses(requested: OfferRequest) -> bool {
    forall|t: int|
        0 <= t < requested.nfts@.len() ==> crate::hashes::tree_parses(
            (#[trigger] requested.nfts@[t]).1.metadata@,
        )
}

/// The currency change of a build, before assembly: what the selected
/// currency coins hold beyond the offered amount, the fee and the
/// royalties owed.
pub open spec fn offer_xch_change(
    offered: OfferedCoins,
    requested: OfferRequest,
    selection: OfferSelection,
) -> int {
    sum_coin_amounts(selection.p2_coins@) - offered.xch - offered.fee - royalty_amount_sum(
        royalties_we_pay_views(offered, requested),
    )
}

/// Whether the currency leg's change would be negative or not fit an
/// amount. With no currency coins selected the leg is skipped entirely,
/// whatever the offered amount, so no fault arises; callers make the
/// selection cover `required_xch_total` first.
pub open spec fn offer_xch_fault(
    offered: OfferedCoins,
    requested: OfferRequest,
    selection: OfferSelection,
) -> bool {
    selection.p2_coins@.len() > 0 && (offer_xch_change(offered, requested, selection) < 0
        || offer_xch_change(offered, requested, selection) > u64::MAX)
}

/// The CAT legs a build assembles: each positive CAT entry paired, in
/// order, with its selected coin group.
pub open spec fn selection_cat_spends(offered: OfferedCoins, selection: OfferSelection) -> Seq<
    CatOfferSpend,
> {
    Seq::new(
        selection.cat_coins@.len(),
        |k: int|
            CatOfferSpend {
                asset_id: positive_cats(offered.cats@)[k].0,
                coins: selection.cat_coins@[k],
                amount: positive_cats(offered.cats@)[k].1,
            },
    )
}

/// Whether some CAT leg's change would be negative or not fit an amount.
pub open spec fn offer_cats_fault(offered: OfferedCoins, selection: OfferSelection) -> bool {
    crate::assemble::cats_fault(selection_cat_spends(offered, selection))
}

/// Every output of the currency leg, at the offer level: the
/// settlement-encumbered coin when currency is offered, one coin per
/// royalty payment owed, and the change, paid to the wallet's receive
/// address.
pub open spec fn xch_created_views(
    offered: OfferedCoins,
    requested: OfferRequest,
    selection: OfferSelection,
    change_puzzle_hash: Hash32,
) -> Seq<(Seq<u8>, int, Seq<Seq<u8>>)> {
    let settle: Seq<(Seq<u8>, int, Seq<Seq<u8>>)> = if offered.xch > 0 {
        seq![
            (crate::hashes::settlement_payments_hash(), offered.xch as int, Seq::<Seq<u8>>::empty()),
        ]
    } else {
        Seq::empty()
    };
    let royalties = royalties_we_pay_views(offered, requested).map_values(
        |r: (Seq<u8>, Seq<u8>, Seq<u8>, int)| (r.2, r.3, Seq::<Seq<u8>>::empty()),
    );
    let change: Seq<(Seq<u8>, int, Seq<Seq<u8>>)> = if offer_xch_change(
        offered,
        requested,
        selection,
    ) > 0 {
        seq![
            (
                change_puzzle_hash@,
                offer_xch_change(offered, requested, selection),
                Seq::<Seq<u8>>::empty(),
            ),
        ]
    } else {
        Seq::empty()
    };
    settle + royalties + change
}

/// When a build is owed success: no royalty overflow on either side, no
/// missing NFT record, every requested NFT's metadata parses, and the
/// selection leaves no conservation fault.
pub open spec fn offer_succeeds(
    offered: OfferedCoins,
    requested: OfferRequest,
    selection: OfferSelection,
) -> bool {
    &&& !we_pay_overflow(offered, requested)
    &&& !missing_nft(offered, selection)
    &&& !they_pay_overflow(offered, requested, selection)
    &&& requested_metadata_parses(requested)
    &&& !offer_xch_fault(offered, requested, selection)
    &&& !offer_cats_fault(offered, selection)
}

/// The ids of every coin being offered, in offer order: the currency
/// coins, every coin of every CAT group, then the NFT coins. The nonce is
/// a single hash over exactly this list.
pub open spec fn cat_group_ids(groups: Seq<Vec<CatCoin>>) -> Seq<Seq<u8>>
    decreases groups.len(),
{
    if groups.len() == 0 {
        Seq::empty()
    } else {
        cat_group_ids(groups.drop_last()) + groups.last()@.map_values(
            |c: CatCoin| coin_id_view(c.coin),
        )
    }
}

/// The coin ids of the offered NFTs, by record.
pub open spec fn nft_record_ids(records: Seq<Option<NftRecord>>) -> Seq<Seq<u8>> {
    records.map_values(
        |o: Option<NftRecord>|
            match o {
                Some(n) => coin_id_view(n.coin),
                None => Seq::<u8>::empty(),
            },
    )
}

/// Every offered coin id, in offer order.
pub open spec fn offered_coin_id_views(selection: OfferSelection) -> Seq<Seq<u8>> {
    selection.p2_coins@.map_values(|c: Coin| coin_id_view(c)) + cat_group_ids(selection.cat_coins@)
        + nft_record_ids(selection.nfts@)
}

/// Nonce determinism: two builds over the same selected coin set derive
/// the same nonce, because the nonce is a function of the coin ids alone.
pub proof fn lemma_nonce_deterministic(selection1: OfferSelection, selection2: OfferSelection)
    requires
        selection1.p2_coins@ == selection2.p2_coins@,
        selection1.cat_coins@ == selection2.cat_coins@,
        selection1.nfts@ == selection2.nfts@,
    ensures
        nonce_of(offered_coin_id_views(selection1)) == nonce_of(offered_coin_id_views(selection2)),
{
}

/// The zero-royalty path: with no NFTs requested there are no trade
/// prices for the offered assets, so the offeror owes no royalties and an
/// offer build creates no royalty coins.
pub proof fn lemma_no_requested_nfts_no_royalties(offered: OfferedCoins, requested: OfferRequest)
    requires
        requested.nfts@.len() == 0,
    ensures
        trade_prices_spec(requested.nfts@.len() as int, offered.xch, offered.cats@) == Seq::<
            (int, Seq<u8>),
        >::empty(),
        royalties_we_pay_views(offered, requested) == Seq::<
            (Seq<u8>, Seq<u8>, Seq<u8>, int),
        >::empty(),
{
    assert(requested_royalty_infos(requested).len() == 0);
    assert(trade_prices_spec(requested.nfts@.len() as int, offered.xch, offered.cats@) =~~= Seq::<
        (int, Seq<u8>),
    >::empty());
    assert(royalties_we_pay_views(offered, requested) =~~= Seq::<
        (Seq<u8>, Seq<u8>, Seq<u8>, int),
    >::empty());
}

/// Copy a trade price list for one more NFT spend.
fn copy_trade_prices(prices: &Vec<TradePrice>) -> (r: Vec<TradePrice>)
    ensures
        r@ == prices@,
{
    let mut out: Vec<TradePrice> = Vec::new();
    let mut i: usize = 0;
    while i < prices.len()
        invariant
            i <= prices@.len(),
            out@ == prices@.take(i as int),
        decreases prices@.len() - i,
    {
        out.push(prices[i]);
        assert(out@ =~= prices@.take(i + 1 as int));
        i = i + 1;
    }
    assert(prices@.take(prices@.len() as int) =~= prices@);
    out
}

/// The royalty payments the offeror owes for the requested NFTs, against
/// the trade prices of the offered assets.
#[verifier::loop_isolation(false)]
pub fn royalties_we_pay(offered: &OfferedCoins, requested: &OfferRequest) -> (r: Result<
    Vec<RoyaltyPayment>,
    WalletError,
>)
    ensures
        match r {
            Ok(rs) => !we_pay_overflow(*offered, *requested) && royalty_views(rs@)
                == royalties_we_pay_views(*offered, *requested),
            Err(e) => e == WalletError::ArithmeticFault && we_pay_overflow(*offered, *requested),
        },
{
    let mut infos: Vec<NftRoyaltyInfo> = Vec::new();
    let mut i: usize = 0;
    while i < requested.nfts.len()
        invariant
            i <= requested.nfts@.len(),
            infos@ == requested_royalty_infos(*requested).take(i as int),
        decreases requested.nfts@.len() - i,
    {
        let (nft_id, info) = &requested.nfts[i];
        infos.push(
            NftRoyaltyInfo {
                launcher_id: *nft_id,
                royalty_puzzle_hash: info.royalty_puzzle_hash,
                royalty_ten_thousandths: info.royalty_ten_thousandths,
            },
        );
        proof {
            assert(infos@ =~= requested_royalty_infos(*requested).take(i + 1 as int));
        }
        i = i + 1;
    }
    assert(infos@ =~= requested_royalty_infos(*requested));
    let prices = calculate_asset_prices(requested.nfts.len(), offered.xch, &offered.cats);
    let royalties = match calculate_asset_royalties(&infos, &prices) {
        Ok(rs) => rs,
        Err(e) => {
            return Err(e);
        },
    };
    proof {
        assert(trade_price_views(prices@) == trade_prices_spec(
            requested.nfts@.len() as int,
            offered.xch,
            offered.cats@,
        ));
    }
    Ok(royalties)
}

/// The currency total a build must select: the offered amount, the fee,
/// and every royalty the offeror owes. Fails with `ArithmeticFault` when
/// that total does not fit an amount; never silently wraps.
#[verifier::loop_isolation(false)]
pub fn required_xch_total(offered: &OfferedCoins, requested: &OfferRequest) -> (r: Result<
    u64,
    WalletError,
>)
    ensures
        match r {
            Ok(total) => !we_pay_overflow(*offered, *requested) && total as int == offered.xch
                + offered.fee + crate::royalty::royalty_amount_sum(
                royalties_we_pay_views(*offered, *requested),
            ),
            Err(e) => e == WalletError::ArithmeticFault && (we_pay_overflow(*offered, *requested)
                || offered.xch + offered.fee + crate::royalty::royalty_amount_sum(
                royalties_we_pay_views(*offered, *requested),
            ) > u64::MAX),
        },
{
    let royalties = match royalties_we_pay(offered, requested) {
        Ok(rs) => rs,
        Err(e) => {
            return Err(e);
        },
    };
    let ghost rviews = royalty_views(royalties@);
    proof {
        assert forall|t: int| 0 <= t < rviews.len() implies (#[trigger] rviews[t]).3 >= 0 by {
            assert(rviews[t].3 == royalties@[t].amount as int);
        }
    }
    let mut total: u128 = offered.xch as u128 + offered.fee as u128;
    if total > u64::MAX as u128 {
        proof {
            crate::royalty::lemma_royalty_amount_sum_extend(rviews, 0);
            assert(royalty_amount_sum(rviews.take(0)) == 0);
            assert(royalty_amount_sum(rviews) >= 0);
            assert(offered.xch + offered.fee > u64::MAX);
            assert(offered.xch + offered.fee + royalty_amount_sum(
                royalties_we_pay_views(*offered, *requested),
            ) > u64::MAX);
        }
        return Err(WalletError::ArithmeticFault);
    }
    let mut q: usize = 0;
    assert(rviews.take(0) =~= Seq::<(Seq<u8>, Seq<u8>, Seq<u8>, int)>::empty());
    while q < royalties.len()
        invariant
            q <= royalties@.len(),
            rviews == royalty_views(royalties@),
            total == offered.xch + offered.fee + crate::royalty::royalty_amount_sum(
                rviews.take(q as int),
            ),
            total <= u64::MAX,
        decreases royalties@.len() - q,
    {
        proof {
            assert(rviews.take(q + 1 as int).drop_last() =~= rviews.take(q as int));
            assert(rviews.take(q + 1 as int).last() == rviews[q as int]);
        }
        total = total + royalties[q].amount as u128;
        if total > u64::MAX as u128 {
            proof {
                assert(rviews[q as int].3 == royalties@[q as int].amount as int);
                assert(royalty_amount_sum(rviews.take(q + 1 as int)) == royalty_amount_sum(
                    rviews.take(q as int),
                ) + rviews[q as int].3);
                crate::royalty::lemma_royalty_amount_sum_extend(rviews, q + 1);
                assert(offered.xch + offered.fee + royalty_amount_sum(rviews) > u64::MAX);
            }
            return Err(WalletError::ArithmeticFault);
        }
        q = q + 1;
    }
    assert(rviews.take(rviews.len() as int) =~= rviews);
    Ok(total as u64)
}

/// Build an unsigned offer from the user's intent, the collaborator's
/// selection, and the wallet's receive address.
///
/// The nonce is derived from exactly the offered coin set; the requested
/// side accumulates one payment per requested asset; the offered side is
/// assembled with royalties, the atomicity ring, change and fee. The
/// whole build fails atomically: a royalty overflow is an
/// `ArithmeticFault`, an unknown offered NFT is `MissingNft`, a metadata
/// parse failure is a `ConstructionFault`, and no partial state is
/// returned.
#[verifier::loop_isolation(false)]
#[verifier::rlimit(100)]
pub fn make_offer(
    offered: OfferedCoins,
    requested: OfferRequest,
    selection: OfferSelection,
    p2_puzzle_hash: Hash32,
) -> (r: Result<UnsignedOffer, WalletError>)
    requires
        selection.nfts@.len() == offered.nfts@.len(),
        selection.cat_coins@.len() == positive_cats(offered.cats@).len(),
        forall|k: int|
            0 <= k < selection.cat_coins@.len() ==> (#[trigger] selection.cat_coins@[k])@.len()
                > 0,
    ensures
        match r {
            Ok(o) => ({
                let rn = royalties_we_pay_views(offered, requested).len() as int;
                let has_xch = selection.p2_coins@.len() > 0;
                let base: int = if has_xch {
                    rn + 1
                } else {
                    0
                };
                let reqx: int = if requested.xch > 0 {
                    1
                } else {
                    0
                };
                &&& !we_pay_overflow(offered, requested)
                &&& !missing_nft(offered, selection)
                &&& o.builder.nonce@ == nonce_of(offered_coin_id_views(selection))
                &&& o.builder.requested_payments@.len() == reqx + requested.cats@.len()
                    + requested.nfts@.len()
                &&& (requested.xch > 0 ==> (o.builder.requested_payments@[0]
                    matches crate::builder::RequestedPayment { puzzle, payments } && puzzle
                    == RequestedPuzzle::Xch && crate::hashes::payment_views(payments@) == seq![
                    (p2_puzzle_hash@, requested.xch, Option::<Seq<Seq<u8>>>::None),
                ]))
                &&& forall|i: int|
                    reqx <= i < reqx + requested.cats@.len() ==> ((
                    #[trigger] o.builder.requested_payments@[i])
                        matches crate::builder::RequestedPayment { puzzle, payments } && (puzzle
                        matches RequestedPuzzle::Cat { asset_id } && asset_id == requested.cats@[i
                        - reqx].0) && crate::hashes::payment_views(payments@) == seq![
                        (p2_puzzle_hash@, requested.cats@[i - reqx].1, Some(seq![p2_puzzle_hash@])),
                    ])
                &&& forall|i: int|
                    reqx + requested.cats@.len() <= i < reqx + requested.cats@.len()
                        + requested.nfts@.len() ==> ((#[trigger] o.builder.requested_payments@[i])
                        matches crate::builder::RequestedPayment { puzzle, payments } && (puzzle
                        matches RequestedPuzzle::Nft { launcher_id, info } && launcher_id
                        == requested.nfts@[i - reqx - requested.cats@.len()].0 && info
                        == requested.nfts@[i - reqx - requested.cats@.len()].1)
                        && crate::hashes::payment_views(payments@) == seq![
                        (p2_puzzle_hash@, 1u64, Some(seq![p2_puzzle_hash@])),
                    ])
                &&& (has_xch ==> forall|q: int|
                    0 <= q < rn ==> crate::assemble::royalty_spend_view_ok(
                        #[trigger] o.coin_spends@[q],
                        royalties_we_pay_views(offered, requested)[q],
                        coin_id_view(selection.p2_coins@[0]),
                    ))
                &&& o.coin_spends@.len() == (if has_xch {
                    rn + 1
                } else {
                    0int
                }) + selection.cat_coins@.len() + offered.nfts@.len()
                &&& (has_xch ==> (o.coin_spends@[if has_xch {
                    rn
                } else {
                    0int
                }] matches PlannedSpend::Xch { coins, conditions } && coins@
                    == selection.p2_coins@ && crate::assemble::created_sum(conditions@)
                    + crate::assemble::fee_sum(conditions@) == sum_coin_amounts(
                    selection.p2_coins@,
                ) && crate::assemble::created_outputs(conditions@) == xch_created_views(
                    offered,
                    requested,
                    selection,
                    p2_puzzle_hash,
                ) && crate::assemble::reserved_fees(conditions@) == (if offered.fee > 0 {
                    seq![offered.fee as int]
                } else {
                    Seq::<int>::empty()
                })))
                &&& forall|k: int|
                    0 <= k < selection.cat_coins@.len() ==> ((#[trigger] o.coin_spends@[base + k])
                        matches PlannedSpend::Cat { asset_id, coins, conditions }
                        && coins@ == selection.cat_coins@[k]@ && asset_id == positive_cats(
                        offered.cats@,
                    )[k].0 && crate::assemble::created_sum(conditions@)
                        == crate::types::sum_cat_amounts(selection.cat_coins@[k]@))
                &&& forall|m: int|
                    0 <= m < offered.nfts@.len() ==> ((#[trigger] o.coin_spends@[base
                        + selection.cat_coins@.len() + m]) matches PlannedSpend::Nft {
                        nft,
                        trade_prices,
                        conditions,
                    } && Some(nft) == selection.nfts@[m] && trade_price_views(trade_prices@)
                        == trade_prices_spec(
                        offered.nfts@.len() as int,
                        requested.xch,
                        requested.cats@,
                    ))
            }),
            Err(e) => ({
                &&& (e matches WalletError::MissingNft(id) ==> missing_nft(offered, selection)
                    && exists|i: int|
                    0 <= i < offered.nfts@.len() && (#[trigger] selection.nfts@[i]) is None
                        && offered.nfts@[i] == id)
                &&& (e == WalletError::ArithmeticFault || e matches WalletError::MissingNft(_)
                    || e == WalletError::ConstructionFault)
            }),
        },
        r is Ok <==> offer_succeeds(offered, requested, selection),
        we_pay_overflow(offered, requested) ==> r == Err::<UnsignedOffer, WalletError>(
            WalletError::ArithmeticFault,
        ),
        (!we_pay_overflow(offered, requested) && missing_nft(offered, selection)) ==> (
        r matches Err(e) && e matches WalletError::MissingNft(_)),
{
    let ghost selection0 = selection;
    // Royalties the offeror owes for the requested NFTs.
    let we_pay = match royalties_we_pay(&offered, &requested) {
        Ok(rs) => rs,
        Err(e) => {
            return Err(e);
        },
    };
    let ghost rn = royalty_views(we_pay@).len() as int;

    // The ids of every coin being offered, in offer order; they bind the
    // nonce to exactly this coin set. Offered NFTs are resolved here, and
    // an unknown one aborts the build.
    let mut coin_ids: Vec<Hash32> = Vec::new();
    let ghost target = offered_coin_id_views(selection0);
    let mut i: usize = 0;
    while i < selection.p2_coins.len()
        invariant
            i <= selection0.p2_coins@.len(),
            coin_ids@.map_values(|h: Hash32| h@) == selection0.p2_coins@.take(i as int).map_values(
                |c: Coin| coin_id_view(c),
            ),
        decreases selection0.p2_coins@.len() - i,
    {
        coin_ids.push(coin_id(&selection.p2_coins[i]));
        proof {
            let lhs = coin_ids@.map_values(|h: Hash32| h@);
            let rhs = selection0.p2_coins@.take(i + 1 as int).map_values(
                |c: Coin| coin_id_view(c),
            );
            assert(lhs.len() == rhs.len());
            assert forall|x: int| 0 <= x < lhs.len() implies lhs[x] == rhs[x] by {
                assert(selection0.p2_coins@.take(i + 1 as int)[x] == selection0.p2_coins@[x]);
                if x < i {
                    assert(lhs[x] == selection0.p2_coins@.take(i as int).map_values(
                        |c: Coin| coin_id_view(c),
                    )[x]);
                    assert(selection0.p2_coins@.take(i as int)[x] == selection0.p2_coins@[x]);
                }
            }
            assert(lhs =~~= rhs);
        }
        i = i + 1;
    }
    assert(selection0.p2_coins@.take(selection0.p2_coins@.len() as int) =~= selection0.p2_coins@);
    let ghost p2_part = selection0.p2_coins@.map_values(|c: Coin| coin_id_view(c));
    let mut g: usize = 0;
    while g < selection.cat_coins.len()
        invariant
            g <= selection0.cat_coins@.len(),
            coin_ids@.map_values(|h: Hash32| h@) == p2_part + cat_group_ids(
                selection0.cat_coins@.take(g as int),
            ),
        decreases selection0.cat_coins@.len() - g,
    {
        let mut j: usize = 0;
        while j < selection.cat_coins[g].len()
            invariant
                g < selection0.cat_coins@.len(),
                j <= selection0.cat_coins@[g as int]@.len(),
                coin_ids@.map_values(|h: Hash32| h@) == p2_part + cat_group_ids(
                    selection0.cat_coins@.take(g as int),
                ) + selection0.cat_coins@[g as int]@.take(j as int).map_values(
                    |c: CatCoin| coin_id_view(c.coin),
                ),
            decreases selection0.cat_coins@[g as int]@.len() - j,
        {
            coin_ids.push(coin_id(&selection.cat_coins[g][j].coin));
            proof {
                let pre = p2_part + cat_group_ids(selection0.cat_coins@.take(g as int));
                let cur = selection0.cat_coins@[g as int]@;
                let lhs = coin_ids@.map_values(|h: Hash32| h@);
                let rhs = pre + cur.take(j + 1 as int).map_values(
                    |c: CatCoin| coin_id_view(c.coin),
                );
                assert(lhs.len() == rhs.len());
                assert forall|x: int| 0 <= x < lhs.len() implies lhs[x] == rhs[x] by {
                    if x < pre.len() + j {
                        assert(lhs[x] == (pre + cur.take(j as int).map_values(
                            |c: CatCoin| coin_id_view(c.coin),
                        ))[x]);
                        if x >= pre.len() {
                            assert(cur.take(j as int)[x - pre.len()] == cur[x - pre.len()]);
                            assert(cur.take(j + 1 as int)[x - pre.len()] == cur[x - pre.len()]);
                        }
                    } else {
                        assert(cur.take(j + 1 as int)[j as int] == cur[j as int]);
                    }
                }
                assert(lhs =~~= rhs);
            }
            j = j + 1;
        }
        proof {
            assert(selection0.cat_coins@[g as int]@.take(selection0.cat_coins@[g as int]@.len() as int)
                =~= selection0.cat_coins@[g as int]@);
            assert(selection0.cat_coins@.take(g + 1 as int).drop_last() =~= selection0.cat_coins@.take(
                g as int,
            ));
            assert(selection0.cat_coins@.take(g + 1 as int).last() == selection0.cat_coins@[g as int]);
            assert(coin_ids@.map_values(|h: Hash32| h@) =~~= p2_part + cat_group_ids(
                selection0.cat_coins@.take(g + 1 as int),
            ));
        }
        g = g + 1;
    }
    assert(selection0.cat_coins@.take(selection0.cat_coins@.len() as int) =~= selection0.cat_coins@);
    let ghost cat_part = cat_group_ids(selection0.cat_coins@);

    // Resolve the offered NFT records, collecting their royalty inputs.
    let mut records: Vec<NftRecord> = Vec::new();
    let mut they_pay_infos: Vec<NftRoyaltyInfo> = Vec::new();
    let mut nft_options = selection.nfts;
    let mut t: usize = 0;
    while t < offered.nfts.len()
        invariant
            t <= offered.nfts@.len(),
            offered.nfts@.len() == selection0.nfts@.len(),
            nft_options@ == selection0.nfts@.skip(t as int),
            records@.len() == t,
            they_pay_infos@.len() == t,
            forall|s: int| 0 <= s < t ==> (#[trigger] selection0.nfts@[s]) is Some,
            forall|s: int|
                0 <= s < t ==> (#[trigger] records@[s]) == selection0.nfts@[s]->Some_0,
            forall|s: int|
                0 <= s < t ==> (#[trigger] they_pay_infos@[s]) == (NftRoyaltyInfo {
                    launcher_id: selection0.nfts@[s]->Some_0.launcher_id,
                    royalty_puzzle_hash: selection0.nfts@[s]->Some_0.royalty_puzzle_hash,
                    royalty_ten_thousandths: selection0.nfts@[s]->Some_0.royalty_ten_thousandths,
                }),
            coin_ids@.map_values(|h: Hash32| h@) == p2_part + cat_part + nft_record_ids(
                selection0.nfts@.take(t as int),
            ),
        decreases offered.nfts@.len() - t,
    {
        proof {
            assert(selection0.nfts@.skip(t as int)[0] == selection0.nfts@[t as int]);
        }
        let record = match nft_options.remove(0) {
            Some(record) => record,
            None => {
                return Err(WalletError::MissingNft(offered.nfts[t]));
            },
        };
        proof {
            assert(nft_options@ =~= selection0.nfts@.skip(t + 1 as int));
        }
        coin_ids.push(coin_id(&record.coin));
        they_pay_infos.push(
            NftRoyaltyInfo {
                launcher_id: record.launcher_id,
                royalty_puzzle_hash: record.royalty_puzzle_hash,
                royalty_ten_thousandths: record.royalty_ten_thousandths,
            },
        );
        records.push(record);
        proof {
            assert(selection0.nfts@[t as int] == Some(record));
            let pre = p2_part + cat_part;
            let lhs = coin_ids@.map_values(|h: Hash32| h@);
            let rhs = pre + nft_record_ids(selection0.nfts@.take(t + 1 as int));
            assert(lhs.len() == rhs.len());
            assert forall|x: int| 0 <= x < lhs.len() implies lhs[x] == rhs[x] by {
                if x < pre.len() + t {
                    assert(lhs[x] == (pre + nft_record_ids(selection0.nfts@.take(t as int)))[x]);
                    if x >= pre.len() {
                        assert(selection0.nfts@.take(t as int)[x - pre.len()]
                            == selection0.nfts@[x - pre.len()]);
                        assert(selection0.nfts@.take(t + 1 as int)[x - pre.len()]
                            == selection0.nfts@[x - pre.len()]);
                    }
                } else {
                    assert(selection0.nfts@.take(t + 1 as int)[t as int]
                        == selection0.nfts@[t as int]);
                }
            }
            assert(lhs =~~= rhs);
        }
        t = t + 1;
    }
    assert(selection0.nfts@.take(selection0.nfts@.len() as int) =~= selection0.nfts@);
    proof {
        assert(coin_ids@.map_values(|h: Hash32| h@) =~~= target);
        assert(!missing_nft(offered, selection0));
    }

    // Trade prices of the requested side, carried by the offered NFTs,
    // and the royalties the counterparty owes for them.
    let requested_trade_prices = calculate_asset_prices(
        offered.nfts.len(),
        requested.xch,
        &requested.cats,
    );
    proof {
        assert forall|s: int|
            0 <= s < they_pay_infos@.len() implies they_pay_infos@[s] == offered_royalty_infos(
            selection0,
        )[s] by {
            assert(selection0.nfts@[s] is Some);
        }
        assert(they_pay_infos@ =~~= offered_royalty_infos(selection0));
        assert(trade_price_views(requested_trade_prices@) == trade_prices_spec(
            offered.nfts@.len() as int,
            requested.xch,
            requested.cats@,
        ));
    }
    let they_pay = match calculate_asset_royalties(&they_pay_infos, &requested_trade_prices) {
        Ok(rs) => rs,
        Err(e) => {
            assert(they_pay_overflow(offered, requested, selection0));
            return Err(e);
        },
    };
    assert(!they_pay_overflow(offered, requested, selection0));

    // The nonce binds the offer to exactly this coin set.
    let nonce = offer_nonce(&coin_ids);

    // Accumulate the requested payments.
    let mut builder = OfferBuilder::new(nonce);
    let ghost xreq: int = if requested.xch > 0 {
        1
    } else {
        0
    };
    if requested.xch > 0 {
        let payment = Payment { puzzle_hash: p2_puzzle_hash, amount: requested.xch, memos: None };
        let ghost payment0 = payment;
        builder = match builder.request(RequestedPuzzle::Xch, vec![payment]) {
            Ok(b) => b,
            Err(_) => {
                proof {
                    assert(false);
                }
                return Err(WalletError::ConstructionFault);
            },
        };
        proof {
            assert(payment_views(seq![payment0]) =~~= seq![
                (p2_puzzle_hash@, requested.xch, Option::<Seq<Seq<u8>>>::None),
            ]);
            assert(builder.requested_payments@[0] matches RequestedPayment { puzzle, payments }
                && payments@ == seq![payment0] && puzzle == RequestedPuzzle::Xch);
        }
    }
    let mut cj: usize = 0;
    while cj < requested.cats.len()
        invariant
            cj <= requested.cats@.len(),
            builder.nonce == nonce,
            builder.requested_payments@.len() == xreq + cj,
            requested.xch > 0 ==> (builder.requested_payments@[0] matches RequestedPayment {
                puzzle,
                payments,
            } && puzzle == RequestedPuzzle::Xch && payment_views(payments@) == seq![
                (p2_puzzle_hash@, requested.xch, Option::<Seq<Seq<u8>>>::None),
            ]),
            forall|i: int|
                xreq <= i < xreq + cj ==> ((#[trigger] builder.requested_payments@[i])
                    matches RequestedPayment { puzzle, payments } && (puzzle
                    matches RequestedPuzzle::Cat { asset_id } && asset_id == requested.cats@[i
                    - xreq].0) && payment_views(payments@) == seq![
                    (p2_puzzle_hash@, requested.cats@[i - xreq].1, Some(seq![p2_puzzle_hash@])),
                ]),
        decreases requested.cats@.len() - cj,
    {
        let (asset_id, amount) = requested.cats[cj];
        let payment = Payment {
            puzzle_hash: p2_puzzle_hash,
            amount,
            memos: Some(vec![p2_puzzle_hash]),
        };
        let ghost payment0 = payment;
        builder = match builder.request(RequestedPuzzle::Cat { asset_id }, vec![payment]) {
            Ok(b) => b,
            Err(_) => {
                proof {
                    assert(false);
                }
                return Err(WalletError::ConstructionFault);
            },
        };
        proof {
            assert(payment_views(seq![payment0]) =~~= seq![
                (p2_puzzle_hash@, amount, Some(seq![p2_puzzle_hash@])),
            ]);
            assert(builder.requested_payments@[xreq + cj] matches RequestedPayment {
                puzzle,
                payments,
            } && payments@ == seq![payment0] && puzzle == (RequestedPuzzle::Cat { asset_id }));
        }
        cj = cj + 1;
    }
    let mut req_nfts = requested.nfts;
    let ghost reqseq = req_nfts@;
    let ghost reqn = reqseq.len() as int;
    let ghost catsn = requested.cats@.len() as int;
    let reqlen = req_nfts.len();
    let mut nj: usize = 0;
    assert(req_nfts@ =~= reqseq.skip(0));
    while req_nfts.len() > 0
        invariant
            reqn == reqlen as int,
            0 <= nj <= reqn,
            req_nfts@ == reqseq.skip(nj as int),
            builder.nonce == nonce,
            builder.requested_payments@.len() == xreq + catsn + nj,
            forall|t: int| 0 <= t < nj ==> tree_parses((#[trigger] reqseq[t]).1.metadata@),
            requested.xch > 0 ==> (builder.requested_payments@[0] matches RequestedPayment {
                puzzle,
                payments,
            } && puzzle == RequestedPuzzle::Xch && payment_views(payments@) == seq![
                (p2_puzzle_hash@, requested.xch, Option::<Seq<Seq<u8>>>::None),
            ]),
            forall|i: int|
                xreq <= i < xreq + catsn ==> ((#[trigger] builder.requested_payments@[i])
                    matches RequestedPayment { puzzle, payments } && (puzzle
                    matches RequestedPuzzle::Cat { asset_id } && asset_id == requested.cats@[i
                    - xreq].0) && payment_views(payments@) == seq![
                    (p2_puzzle_hash@, requested.cats@[i - xreq].1, Some(seq![p2_puzzle_hash@])),
                ]),
            forall|i: int|
                xreq + catsn <= i < xreq + catsn + nj ==> ((
                #[trigger] builder.requested_payments@[i]) matches RequestedPayment {
                    puzzle,
                    payments,
                } && (puzzle matches RequestedPuzzle::Nft { launcher_id, info } && launcher_id
                    == reqseq[i - xreq - catsn].0 && info == reqseq[i - xreq - catsn].1)
                    && payment_views(payments@) == seq![
                    (p2_puzzle_hash@, 1u64, Some(seq![p2_puzzle_hash@])),
                ]),
        decreases req_nfts@.len(),
    {
        proof {
            assert(reqseq.skip(nj as int)[0] == reqseq[nj as int]);
        }
        let (launcher_id, info) = req_nfts.remove(0);
        proof {
            assert(req_nfts@ =~= reqseq.skip(nj + 1 as int));
        }
        let payment = Payment {
            puzzle_hash: p2_puzzle_hash,
            amount: 1,
            memos: Some(vec![p2_puzzle_hash]),
        };
        let ghost payment0 = payment;
        builder = match builder.request(RequestedPuzzle::Nft { launcher_id, info }, vec![payment]) {
            Ok(b) => b,
            Err(e) => {
                proof {
                    assert(!tree_parses(reqseq[nj as int].1.metadata@));
                    assert(requested.nfts@[nj as int] == reqseq[nj as int]);
                    assert(!requested_metadata_parses(requested));
                }
                return Err(e);
            },
        };
        proof {
            assert(tree_parses(reqseq[nj as int].1.metadata@));
            assert(payment_views(seq![payment0]) =~~= seq![
                (p2_puzzle_hash@, 1u64, Some(seq![p2_puzzle_hash@])),
            ]);
            assert(builder.requested_payments@[xreq + catsn + nj] matches RequestedPayment {
                puzzle,
                payments,
            } && payments@ == seq![payment0] && puzzle == (RequestedPuzzle::Nft {
                launcher_id: reqseq[nj as int].0,
                info: reqseq[nj as int].1,
            }));
        }
        nj = nj + 1;
    }
    proof {
        assert forall|t: int|
            0 <= t < requested.nfts@.len() implies tree_parses(
            (#[trigger] requested.nfts@[t]).1.metadata@,
        ) by {
            assert(requested.nfts@[t] == reqseq[t]);
            assert(tree_parses(reqseq[t].1.metadata@));
        }
        assert(requested_metadata_parses(requested));
    }

    // Close the requested side and attach the counterparty's royalty
    // assertions to the bag the offered side must satisfy.
    let (mut assertions, builder) = builder.finish();
    let royalty_assertions = calculate_royalty_assertions(&they_pay);
    let mut aj: usize = 0;
    while aj < royalty_assertions.len()
        invariant
            aj <= royalty_assertions@.len(),
        decreases royalty_assertions@.len() - aj,
    {
        assertions.push(royalty_assertions[aj]);
        aj = aj + 1;
    }

    // Pair each positive CAT entry with its selected coin group.
    let mut cats: Vec<CatOfferSpend> = Vec::new();
    let mut cat_groups = selection.cat_coins;
    let mut ci: usize = 0;
    let mut pos: usize = 0;
    while ci < offered.cats.len()
        invariant
            ci <= offered.cats@.len(),
            pos == positive_cats(offered.cats@.take(ci as int)).len(),
            pos <= selection0.cat_coins@.len(),
            cats@.len() == pos,
            cat_groups@ == selection0.cat_coins@.skip(pos as int),
            forall|s: int|
                0 <= s < pos ==> (#[trigger] cats@[s]).coins == selection0.cat_coins@[s],
            forall|s: int|
                0 <= s < pos ==> (#[trigger] cats@[s]).asset_id == positive_cats(
                    offered.cats@.take(ci as int),
                )[s].0 && cats@[s].amount == positive_cats(offered.cats@.take(ci as int))[s].1,
        decreases offered.cats@.len() - ci,
    {
        let (asset_id, amount) = offered.cats[ci];
        proof {
            assert(offered.cats@.take(ci + 1 as int).drop_last() =~= offered.cats@.take(ci as int));
            assert(offered.cats@.take(ci + 1 as int).last() == offered.cats@[ci as int]);
        }
        if amount > 0 {
            proof {
                assert(offered.cats@.take(offered.cats@.len() as int) =~= offered.cats@);
                lemma_positive_cats_prefix_len(offered.cats@, ci as int);
                assert(positive_cats(offered.cats@.take(ci + 1 as int)) == positive_cats(
                    offered.cats@.take(ci as int),
                ).push(offered.cats@[ci as int]));
            }
            let coins = cat_groups.remove(0);
            proof {
                assert(selection0.cat_coins@.skip(pos as int)[0] == selection0.cat_coins@[pos as int]);
                assert(cat_groups@ =~= selection0.cat_coins@.skip(pos + 1 as int));
            }
            cats.push(CatOfferSpend { asset_id, coins, amount });
            pos = pos + 1;
        }
        ci = ci + 1;
    }
    assert(offered.cats@.take(offered.cats@.len() as int) =~= offered.cats@);

    // Each offered NFT carries the requested-side trade prices.
    let mut nfts: Vec<NftOfferSpend> = Vec::new();
    let ghost records0 = records@;
    let mut rec_vec = records;
    let ghost recn = selection0.nfts@.len() as int;
    let reclen = rec_vec.len();
    let mut ri: usize = 0;
    assert(rec_vec@ =~= records0.skip(0));
    while rec_vec.len() > 0
        invariant
            recn == reclen as int,
            0 <= ri <= recn,
            rec_vec@ == records0.skip(ri as int),
            nfts@.len() == ri,
            forall|s: int|
                0 <= s < ri ==> (#[trigger] nfts@[s]).nft == selection0.nfts@[s]->Some_0
                    && nfts@[s].trade_prices@ == requested_trade_prices@,
        decreases rec_vec@.len(),
    {
        proof {
            assert(records0.skip(ri as int)[0] == records0[ri as int]);
        }
        let nft = rec_vec.remove(0);
        proof {
            assert(rec_vec@ =~= records0.skip(ri + 1 as int));
        }
        let trade_prices = copy_trade_prices(&requested_trade_prices);
        nfts.push(NftOfferSpend { nft, trade_prices });
        ri = ri + 1;
    }

    // Assemble the offered side.
    let spend = OfferSpend {
        p2_coins: selection.p2_coins,
        p2_amount: offered.xch,
        fee: offered.fee,
        royalties: we_pay,
        cats,
        nfts,
        assertions,
        change_puzzle_hash: p2_puzzle_hash,
    };
    let ghost spend_ghost = spend;
    proof {
        lemma_royalty_sums_agree(spend_ghost.royalties@);
        assert forall|s: int|
            0 <= s < spend_ghost.cats@.len() implies spend_ghost.cats@[s] == selection_cat_spends(
            offered,
            selection0,
        )[s] by {
            assert(spend_ghost.cats@[s].coins == selection0.cat_coins@[s]);
        }
        assert(spend_ghost.cats@ =~= selection_cat_spends(offered, selection0));
        assert(xch_change(spend_ghost) == offer_xch_change(offered, requested, selection0));
        assert(xch_fault(spend_ghost) == offer_xch_fault(offered, requested, selection0));
        assert(cats_fault(spend_ghost.cats@) == cats_fault(selection_cat_spends(
            offered,
            selection0,
        )));
    }
    let coin_spends = match spend_assets(spend) {
        Ok(spends) => spends,
        Err(e) => {
            return Err(e);
        },
    };
    proof {
        assert(spend_ghost.royalties@.len() == rn);
        assert(rn == royalties_we_pay_views(offered, requested).len());
        assert(spend_ghost.p2_coins@ == selection0.p2_coins@);
        assert(spend_ghost.cats@.len() == selection0.cat_coins@.len());
        assert(spend_ghost.nfts@.len() == offered.nfts@.len());
        let has_xch = selection0.p2_coins@.len() > 0;
        let xnum: int = if has_xch {
            1
        } else {
            0
        };
        let rn2: int = if has_xch {
            spend_ghost.royalties@.len() as int
        } else {
            0
        };
        let catn = selection0.cat_coins@.len() as int;
        assert forall|k: int| 0 <= k < catn implies crate::assemble::cat_spend_ok(
            spend_ghost,
            k,
            #[trigger] coin_spends@[rn2 + xnum + k],
        ) && spend_ghost.cats@[k].coins@ == selection0.cat_coins@[k]@
            && spend_ghost.cats@[k].asset_id == positive_cats(offered.cats@)[k].0 by {
            assert(crate::assemble::cat_spend_ok(spend_ghost, k, coin_spends@[rn2 + xnum + k]));
        }
        assert forall|m: int| 0 <= m < offered.nfts@.len() implies crate::assemble::nft_spend_ok(
            spend_ghost,
            m,
            #[trigger] coin_spends@[rn2 + xnum + catn + m],
        ) && spend_ghost.nfts@[m].nft == selection0.nfts@[m]->Some_0
            && spend_ghost.nfts@[m].trade_prices@ == requested_trade_prices@
            && selection0.nfts@[m] is Some by {
            assert(crate::assemble::nft_spend_ok(spend_ghost, m, coin_spends@[rn2 + xnum + catn
                + m]));
        }
        assert(trade_price_views(requested_trade_prices@) == trade_prices_spec(
            offered.nfts@.len() as int,
            requested.xch,
            requested.cats@,
        ));
        if selection0.p2_coins@.len() > 0 {
            let rnE: int = if spend_ghost.p2_coins@.len() > 0 {
                spend_ghost.royalties@.len() as int
            } else {
                0
            };
            let conds = coin_spends@[rnE]->Xch_conditions;
            assert(crate::assemble::xch_conditions_ok(spend_ghost, conds@));
            assert(crate::assemble::created_outputs(conds@) == crate::assemble::xch_created_spec(
                spend_ghost,
            ));
            assert(crate::assemble::royalty_created_views(spend_ghost.royalties@)
                =~~= royalties_we_pay_views(offered, requested).map_values(
                |r: (Seq<u8>, Seq<u8>, Seq<u8>, int)| (r.2, r.3, Seq::<Seq<u8>>::empty()),
            ));
            assert(crate::assemble::xch_created_spec(spend_ghost) =~~= xch_created_views(
                offered,
                requested,
                selection0,
                p2_puzzle_hash,
            ));
            assert forall|q: int| 0 <= q < rn implies royalty_spend_view_ok(
                #[trigger] coin_spends@[q],
                royalties_we_pay_views(offered, requested)[q],
                coin_id_view(selection0.p2_coins@[0]),
            ) by {
                let rp = spend_ghost.royalties@[q];
                assert(royalty_spend_ok(
                    coin_spends@[q],
                    rp,
                    coin_id_view(spend_ghost.p2_coins@[0]),
                ));
                assert(royalties_we_pay_views(offered, requested)[q] == (
                    rp.nft_id@,
                    rp.p2_puzzle_hash@,
                    rp.settlement_puzzle_hash@,
                    rp.amount as int,
                ));
                assert(coin_spends@[q] matches PlannedSpend::RoyaltySettlement { payment, .. }
                    && payment.memos matches Some(m) && m@.map_values(|x: Hash32| x@) =~~= seq![
                    rp.p2_puzzle_hash@,
                ]);
            }
        }
    }
    Ok(UnsignedOffer { coin_spends, builder })
}

/// One positive entry past a prefix lengthens the positive list.
proof fn lemma_positive_cats_prefix_len(cats: Seq<(Hash32, u64)>, i: int)
    requires
        0 <= i < cats.len(),
        cats[i].1 > 0,
    ensures
        positive_cats(cats.take(i + 1)).len() == positive_cats(cats.take(i)).len() + 1,
        positive_cats(cats.take(i)).len() < positive_cats(cats).len(),
{
    assert(cats.take(i + 1).drop_last() =~= cats.take(i));
    assert(cats.take(i + 1).last() == cats[i]);
    lemma_positive_cats_mono(cats, i + 1);
}

/// The positive list of a prefix is never longer than that of the whole.
proof fn lemma_positive_cats_mono(cats: Seq<(Hash32, u64)>, j: int)
    requires
        0 <= j <= cats.len(),
    ensures
        positive_cats(cats.take(j)).len() <= positive_cats(cats).len(),
    decreases cats.len() - j,
{
    if j == cats.len() {
        assert(cats.take(j) =~= cats);
    } else {
        assert(cats.take(j + 1).drop_last() =~= cats.take(j));
        lemma_positive_cats_mono(cats, j + 1);
    }
}

} // verus!
