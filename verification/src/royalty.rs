//! Trade prices and marketplace royalties for NFT offers.
//!
//! When NFTs are requested, every offered asset kind (native currency as one
//! kind, each fungible token as another) is split evenly over the requested
//! NFTs into one trade price per kind; each NFT then owes
//! `floor(price * royalty_ten_thousandths / 10000)` per trade price.
//! Division remainders stay with the offeror's change, so totals reconcile
//! exactly through the conservation equation of the spend assembler.

use vstd::prelude::*;

use crate::hashes::{
    cat_curry_hash, cat_curry_hash_of, payment_announcement_id, payment_announcement_of,
    payment_views, settlement_payments_hash, settlement_puzzle_hash,
};
use crate::types::{
    Assertion, Hash32, NftRoyaltyInfo, Payment, RoyaltyPayment, TradePrice, WalletError,
};

verus! {

/// The CAT entries with a positive amount, in order. Zero-amount entries
/// are ignored.
pub open spec fn positive_cats(cats: Seq<(Hash32, u64)>) -> Seq<(Hash32, u64)>
    decreases cats.len(),
{
    if cats.len() == 0 {
        Seq::empty()
    } else {
        let rest = positive_cats(cats.drop_last());
        if cats.last().1 > 0 {
            rest.push(cats.last())
        } else {
            rest
        }
    }
}

/// What the trade price list says for a given intent: the per-NFT share of
/// the native currency (if any is offered), then the per-NFT share of each
/// positive CAT entry, each behind its settlement wrapper.
pub open spec fn trade_prices_spec(nft_count: int, xch: u64, cats: Seq<(Hash32, u64)>) -> Seq<
    (int, Seq<u8>),
>
    decreases cats.len(),
{
    if nft_count <= 0 {
        Seq::empty()
    } else if cats.len() > 0 {
        let rest = trade_prices_spec(nft_count, xch, cats.drop_last());
        if cats.last().1 > 0 {
            rest.push(
                (
                    cats.last().1 as int / nft_count,
                    cat_curry_hash_of(cats.last().0@, settlement_payments_hash()),
                ),
            )
        } else {
            rest
        }
    } else if xch > 0 {
        seq![(xch as int / nft_count, settlement_payments_hash())]
    } else {
        Seq::empty()
    }
}

/// The view of a trade price list as (amount, puzzle hash) pairs.
pub open spec fn trade_price_views(prices: Seq<TradePrice>) -> Seq<(int, Seq<u8>)> {
    prices.map_values(|p: TradePrice| (p.amount as int, p.puzzle_hash@))
}

/// For every asset kind offered, the price one requested NFT converts to.
///
/// The split is exact integer division: each price is the floor of the
/// asset's offered amount over the number of requested NFTs; the remainder
/// is not offered and returns to the offeror as change. With no NFTs
/// requested there are no trade prices and so no royalties downstream.
pub fn calculate_asset_prices(
    nft_count: usize,
    xch: u64,
    cats: &Vec<(Hash32, u64)>,
) -> (r: Vec<TradePrice>)
    ensures
        trade_price_views(r@) == trade_prices_spec(nft_count as int, xch, cats@),
        nft_count == 0 ==> r@.len() == 0,
{
    let mut prices: Vec<TradePrice> = Vec::new();
    if nft_count == 0 {
        assert(trade_price_views(prices@) =~= trade_prices_spec(0, xch, cats@));
        return prices;
    }
    if xch > 0 {
        prices.push(TradePrice { amount: xch / (nft_count as u64), puzzle_hash: settlement_puzzle_hash() });
    }
    assert(trade_price_views(prices@) =~= trade_prices_spec(
        nft_count as int,
        xch,
        cats@.take(0),
    ));
    let mut i: usize = 0;
    while i < cats.len()
        invariant
            i <= cats.len(),
            nft_count > 0,
            trade_price_views(prices@) == trade_prices_spec(nft_count as int, xch, cats@.take(i as int)),
        decreases cats.len() - i,
    {
        let (asset_id, amount) = cats[i];
        let ghost prefix = cats@.take(i as int);
        if amount > 0 {
            let settlement = settlement_puzzle_hash();
            let price = TradePrice {
                amount: amount / (nft_count as u64),
                puzzle_hash: cat_curry_hash(&asset_id, &settlement),
            };
            prices.push(price);
        }
        proof {
            assert(cats@.take(i + 1 as int).drop_last() =~= prefix);
            assert(cats@.take(i + 1 as int).last() == cats@[i as int]);
            assert(trade_price_views(prices@) =~= trade_prices_spec(
                nft_count as int,
                xch,
                cats@.take(i + 1 as int),
            ));
        }
        i = i + 1;
    }
    assert(cats@.take(cats@.len() as int) =~= cats@);
    prices
}

/// Zero-amount CAT entries are ignored: inserting one anywhere changes
/// neither the positive entries nor the trade prices, and so none of the
/// quantities an offer build derives from them — royalties, required
/// totals, CAT legs — differ between the two intents.
pub proof fn lemma_zero_cat_entry_ignored(
    prefix: Seq<(Hash32, u64)>,
    entry: (Hash32, u64),
    suffix: Seq<(Hash32, u64)>,
    nft_count: int,
    xch: u64,
)
    requires
        entry.1 == 0,
    ensures
        positive_cats(prefix + seq![entry] + suffix) == positive_cats(prefix + suffix),
        trade_prices_spec(nft_count, xch, prefix + seq![entry] + suffix) == trade_prices_spec(
            nft_count,
            xch,
            prefix + suffix,
        ),
    decreases suffix.len(),
{
    if suffix.len() == 0 {
        assert(prefix + seq![entry] + suffix =~= prefix.push(entry));
        assert(prefix + suffix =~= prefix);
        assert(prefix.push(entry).drop_last() =~= prefix);
        assert(prefix.push(entry).last() == entry);
    } else {
        lemma_zero_cat_entry_ignored(prefix, entry, suffix.drop_last(), nft_count, xch);
        assert((prefix + seq![entry] + suffix).drop_last() =~= prefix + seq![entry]
            + suffix.drop_last());
        assert((prefix + seq![entry] + suffix).last() == suffix.last());
        assert((prefix + suffix).drop_last() =~= prefix + suffix.drop_last());
        assert((prefix + suffix).last() == suffix.last());
    }
}

/// The exact royalty owed for one trade price at one royalty rate.
pub open spec fn royalty_amount(price: int, ten_thousandths: int) -> int {
    price * ten_thousandths / 10000
}

/// Whether some trade price yields a royalty for this NFT that does not
/// fit a 64-bit amount.
pub open spec fn nft_royalty_overflows(nft: NftRoyaltyInfo, prices: Seq<(int, Seq<u8>)>) -> bool
    decreases prices.len(),
{
    if prices.len() == 0 {
        false
    } else {
        nft_royalty_overflows(nft, prices.drop_last()) || royalty_amount(
            prices.last().0,
            nft.royalty_ten_thousandths as int,
        ) > u64::MAX
    }
}

/// Whether some (NFT, trade price) pair yields a royalty that does not fit
/// a 64-bit amount.
pub open spec fn royalty_overflows(
    nfts: Seq<NftRoyaltyInfo>,
    prices: Seq<(int, Seq<u8>)>,
) -> bool
    decreases nfts.len(),
{
    if nfts.len() == 0 {
        false
    } else {
        royalty_overflows(nfts.drop_last(), prices) || nft_royalty_overflows(nfts.last(), prices)
    }
}

/// An overflow on a prefix of the trade prices is an overflow on all of
/// them.
proof fn lemma_nft_overflow_extend(nft: NftRoyaltyInfo, prices: Seq<(int, Seq<u8>)>, j: int)
    requires
        0 <= j <= prices.len(),
        nft_royalty_overflows(nft, prices.take(j)),
    ensures
        nft_royalty_overflows(nft, prices),
    decreases prices.len() - j,
{
    if j == prices.len() {
        assert(prices.take(j) =~= prices);
    } else {
        assert(prices.take(j + 1).drop_last() =~= prices.take(j));
        lemma_nft_overflow_extend(nft, prices, j + 1);
    }
}

/// An overflow for one listed NFT is an overflow for the whole list.
proof fn lemma_royalty_overflow_member(
    nfts: Seq<NftRoyaltyInfo>,
    prices: Seq<(int, Seq<u8>)>,
    i: int,
)
    requires
        0 <= i < nfts.len(),
        nft_royalty_overflows(nfts[i], prices),
    ensures
        royalty_overflows(nfts, prices),
    decreases nfts.len(),
{
    if i == nfts.len() - 1 {
        assert(nfts.last() == nfts[i]);
    } else {
        lemma_royalty_overflow_member(nfts.drop_last(), prices, i);
    }
}

/// The view of a royalty payment list: (nft id, payee puzzle hash,
/// settlement puzzle hash, amount) per payment.
pub open spec fn royalty_views(rs: Seq<RoyaltyPayment>) -> Seq<(Seq<u8>, Seq<u8>, Seq<u8>, int)> {
    rs.map_values(
        |r: RoyaltyPayment|
            (r.nft_id@, r.p2_puzzle_hash@, r.settlement_puzzle_hash@, r.amount as int),
    )
}

/// The royalty payments owed by one NFT, one per trade price with a nonzero
/// royalty, in trade-price order.
pub open spec fn nft_royalties_spec(
    nft: NftRoyaltyInfo,
    prices: Seq<(int, Seq<u8>)>,
) -> Seq<(Seq<u8>, Seq<u8>, Seq<u8>, int)>
    decreases prices.len(),
{
    if prices.len() == 0 {
        Seq::empty()
    } else {
        let rest = nft_royalties_spec(nft, prices.drop_last());
        let amount = royalty_amount(prices.last().0, nft.royalty_ten_thousandths as int);
        if amount > 0 {
            rest.push((nft.launcher_id@, nft.royalty_puzzle_hash@, prices.last().1, amount))
        } else {
            rest
        }
    }
}

/// The royalty payments owed by all NFTs, grouped by NFT in input order.
pub open spec fn all_royalties_spec(
    nfts: Seq<NftRoyaltyInfo>,
    prices: Seq<(int, Seq<u8>)>,
) -> Seq<(Seq<u8>, Seq<u8>, Seq<u8>, int)>
    decreases nfts.len(),
{
    if nfts.len() == 0 {
        Seq::empty()
    } else {
        all_royalties_spec(nfts.drop_last(), prices) + nft_royalties_spec(nfts.last(), prices)
    }
}

/// One royalty payment per (requested NFT, trade price) pair with a nonzero
/// royalty, addressed to the NFT's royalty puzzle hash and wrapped for
/// settlement-layer delivery through the trade price's own wrapper.
///
/// Fails with `ArithmeticFault` exactly when some pair's royalty does not
/// fit a 64-bit amount; royalties are never silently saturated.
pub fn calculate_asset_royalties(
    nfts: &Vec<NftRoyaltyInfo>,
    prices: &Vec<TradePrice>,
) -> (r: Result<Vec<RoyaltyPayment>, WalletError>)
    ensures
        match r {
            Ok(rs) => !royalty_overflows(nfts@, trade_price_views(prices@)) && royalty_views(rs@)
                == all_royalties_spec(nfts@, trade_price_views(prices@)),
            Err(e) => e == WalletError::ArithmeticFault && royalty_overflows(
                nfts@,
                trade_price_views(prices@),
            ),
        },
{
    let ghost pviews = trade_price_views(prices@);
    let mut out: Vec<RoyaltyPayment> = Vec::new();
    let mut i: usize = 0;
    assert(royalty_views(out@) =~= all_royalties_spec(nfts@.take(0), pviews));
    while i < nfts.len()
        invariant
            i <= nfts.len(),
            pviews == trade_price_views(prices@),
            royalty_views(out@) == all_royalties_spec(nfts@.take(i as int), pviews),
            !royalty_overflows(nfts@.take(i as int), pviews),
        decreases nfts.len() - i,
    {
        let nft = nfts[i];
        let ghost out_before = out@;
        let mut j: usize = 0;
        assert(nft_royalties_spec(nft, pviews.take(0)) =~= Seq::<(Seq<u8>, Seq<u8>, Seq<u8>, int)>::empty());
        while j < prices.len()
            invariant
                j <= prices.len(),
                nft == nfts@[i as int],
                i < nfts.len(),
                pviews == trade_price_views(prices@),
                royalty_views(out@) == royalty_views(out_before) + nft_royalties_spec(
                    nft,
                    pviews.take(j as int),
                ),
                !nft_royalty_overflows(nft, pviews.take(j as int)),
                !royalty_overflows(nfts@.take(i as int), pviews),
            decreases prices.len() - j,
        {
            let price = prices[j];
            let p128: u128 = price.amount as u128;
            let r128: u128 = nft.royalty_ten_thousandths as u128;
            assert(p128 * r128 <= u64::MAX as u128 * u16::MAX as u128) by (nonlinear_arith)
                requires
                    p128 <= u64::MAX as u128,
                    r128 <= u16::MAX as u128,
            ;
            let v: u128 = (p128 * r128) / 10000;
            assert(v == royalty_amount(pviews[j as int].0, nft.royalty_ten_thousandths as int));
            if v > u64::MAX as u128 {
                proof {
                    assert(pviews.take(j + 1 as int).drop_last() =~= pviews.take(j as int));
                    assert(pviews.take(j + 1 as int).last() == pviews[j as int]);
                    assert(nft_royalty_overflows(nft, pviews.take(j + 1 as int)));
                    lemma_nft_overflow_extend(nft, pviews, j + 1);
                    lemma_royalty_overflow_member(nfts@, pviews, i as int);
                }
                return Err(WalletError::ArithmeticFault);
            }
            let ghost out_prev = out@;
            if v > 0 {
                out.push(
                    RoyaltyPayment {
                        nft_id: nft.launcher_id,
                        p2_puzzle_hash: nft.royalty_puzzle_hash,
                        settlement_puzzle_hash: price.puzzle_hash,
                        amount: v as u64,
                    },
                );
            }
            proof {
                assert(pviews.take(j + 1 as int).drop_last() =~= pviews.take(j as int));
                assert(pviews.take(j + 1 as int).last() == pviews[j as int]);
                let amt = royalty_amount(pviews[j as int].0, nft.royalty_ten_thousandths as int);
                assert(amt == v as int);
                let spec_tuple = (nft.launcher_id@, nft.royalty_puzzle_hash@, pviews[j as int].1, amt);
                if amt > 0 {
                    assert(nft_royalties_spec(nft, pviews.take(j + 1 as int))
                        == nft_royalties_spec(nft, pviews.take(j as int)).push(spec_tuple));
                    assert(out@.drop_last() =~= out_prev);
                    assert(out@.last().settlement_puzzle_hash@ == pviews[j as int].1);
                    assert(out@.last().amount as int == amt);
                    assert(royalty_views(out@) =~~= royalty_views(out_prev).push(spec_tuple));
                    assert(royalty_views(out_prev).push(spec_tuple) =~~= royalty_views(out_before)
                        + nft_royalties_spec(nft, pviews.take(j as int)).push(spec_tuple));
                } else {
                    assert(nft_royalties_spec(nft, pviews.take(j + 1 as int))
                        == nft_royalties_spec(nft, pviews.take(j as int)));
                }
                assert(royalty_views(out@) =~~= royalty_views(out_before) + nft_royalties_spec(
                    nft,
                    pviews.take(j + 1 as int),
                ));
            }
            j = j + 1;
        }
        proof {
            assert(pviews.take(pviews.len() as int) =~= pviews);
            assert(nfts@.take(i + 1 as int).drop_last() =~= nfts@.take(i as int));
            assert(nfts@.take(i + 1 as int).last() == nfts@[i as int]);
            assert(royalty_views(out@) =~= all_royalties_spec(nfts@.take(i + 1 as int), pviews));
            assert(!royalty_overflows(nfts@.take(i + 1 as int), pviews));
        }
        i = i + 1;
    }
    assert(nfts@.take(nfts@.len() as int) =~= nfts@);
    Ok(out)
}

/// One announcement assertion per royalty payment, asserting that the
/// corresponding settlement coin creates the expected notarized payment.
/// This is what forces the counterparty to pay royalties before claiming.
pub fn calculate_royalty_assertions(royalties: &Vec<RoyaltyPayment>) -> (r: Vec<Assertion>)
    ensures
        r@.len() == royalties@.len(),
        forall|i: int|
            0 <= i < r@.len() ==> #[trigger] r@[i].announcement_id@ == payment_announcement_of(
                royalties@[i].settlement_puzzle_hash@,
                royalties@[i].nft_id@,
                royalty_payment_views(royalties@[i]),
            ),
{
    let mut out: Vec<Assertion> = Vec::new();
    let mut i: usize = 0;
    while i < royalties.len()
        invariant
            i <= royalties.len(),
            out@.len() == i,
            forall|k: int|
                0 <= k < i ==> #[trigger] out@[k].announcement_id@ == payment_announcement_of(
                    royalties@[k].settlement_puzzle_hash@,
                    royalties@[k].nft_id@,
                    royalty_payment_views(royalties@[k]),
                ),
        decreases royalties.len() - i,
    {
        let royalty = royalties[i];
        let payment = Payment {
            puzzle_hash: royalty.p2_puzzle_hash,
            amount: royalty.amount,
            memos: Some(vec![royalty.p2_puzzle_hash]),
        };
        let payments = vec![payment];
        assert(payment_views(payments@) =~~= royalty_payment_views(royalty));
        let id = payment_announcement_id(
            &royalty.settlement_puzzle_hash,
            &royalty.nft_id,
            &payments,
        );
        out.push(Assertion { announcement_id: id });
        i = i + 1;
    }
    out
}

/// The total amount of a royalty payment list, at the view level.
pub open spec fn royalty_amount_sum(rs: Seq<(Seq<u8>, Seq<u8>, Seq<u8>, int)>) -> int
    decreases rs.len(),
{
    if rs.len() == 0 {
        0
    } else {
        royalty_amount_sum(rs.drop_last()) + rs.last().3
    }
}

/// The two royalty tallies agree: summing the payments and summing their
/// views give the same total.
pub proof fn lemma_royalty_sums_agree(rs: Seq<RoyaltyPayment>)
    ensures
        royalty_amount_sum(royalty_views(rs)) == crate::types::sum_royalty_amounts(rs),
    decreases rs.len(),
{
    if rs.len() > 0 {
        lemma_royalty_sums_agree(rs.drop_last());
        assert(royalty_views(rs).drop_last() =~~= royalty_views(rs.drop_last()));
        assert(royalty_views(rs).last() == royalty_views(rs)[rs.len() - 1]);
    }
}

/// With non-negative amounts, a prefix never exceeds the whole total.
pub proof fn lemma_royalty_amount_sum_extend(rs: Seq<(Seq<u8>, Seq<u8>, Seq<u8>, int)>, j: int)
    requires
        0 <= j <= rs.len(),
        forall|t: int| 0 <= t < rs.len() ==> (#[trigger] rs[t]).3 >= 0,
    ensures
        royalty_amount_sum(rs.take(j)) <= royalty_amount_sum(rs),
    decreases rs.len() - j,
{
    if j == rs.len() {
        assert(rs.take(j) =~= rs);
    } else {
        assert(rs.take(j + 1).drop_last() =~= rs.take(j));
        assert(rs.take(j + 1).last() == rs[j]);
        lemma_royalty_amount_sum_extend(rs, j + 1);
    }
}

/// The single notarized payment that settles one royalty: the payee is paid
/// the royalty amount, with the payee's own puzzle hash as memo.
pub open spec fn royalty_payment_views(r: RoyaltyPayment) -> Seq<
    (Seq<u8>, u64, Option<Seq<Seq<u8>>>),
> {
    seq![(r.p2_puzzle_hash@, r.amount, Some(seq![r.p2_puzzle_hash@]))]
}

} // verus!
