//! The spend assembler: one pass over one offer build.
//!
//! Given the selected coins, the royalty obligations and the assertion bag,
//! it seeds the primary-coin condition map, claims each coin's conditions
//! exactly once, and emits the planned spends: the currency leg with
//! settlement, royalty, change and fee outputs, one leg per CAT group, and
//! one settlement lock per offered NFT. Every leg conserves value exactly;
//! a deficit or an oversized change is a fatal arithmetic fault.

use vstd::prelude::*;

use crate::hashes::{coin_id, coin_id_of, settlement_payments_hash, settlement_puzzle_hash};
use crate::linker::{assertion_conditions, PrimaryConditions};
use crate::types::{
    sum_cat_amounts, sum_coin_amounts, sum_royalty_amounts, CatCoin, Coin, Condition, Hash32,
    NftRecord, Payment, RoyaltyPayment, TradePrice, WalletError,
};
use crate::types::Assertion;

verus! {

/// One CAT group to spend: the selected coins and the offered amount.
#[derive(Clone, Debug, PartialEq, Eq)]
pub struct CatOfferSpend {
    pub asset_id: Hash32,
    pub coins: Vec<CatCoin>,
    pub amount: u64,
}

/// One NFT to lock into settlement, with the trade prices it carries.
#[derive(Clone, Debug, PartialEq, Eq)]
pub struct NftOfferSpend {
    pub nft: NftRecord,
    pub trade_prices: Vec<TradePrice>,
}

/// Everything the assembler consumes for one build.
#[derive(Clone, Debug, PartialEq, Eq)]
pub struct OfferSpend {
    pub p2_coins: Vec<Coin>,
    pub p2_amount: u64,
    pub fee: u64,
    pub royalties: Vec<RoyaltyPayment>,
    pub cats: Vec<CatOfferSpend>,
    pub nfts: Vec<NftOfferSpend>,
    pub assertions: Vec<Assertion>,
    pub change_puzzle_hash: Hash32,
}

/// One planned coin spend of the offered side.
#[derive(Clone, Debug, PartialEq, Eq)]
pub enum PlannedSpend {
    /// Spend the selected currency coins together; only the first carries
    /// the conditions.
    Xch { coins: Vec<Coin>, conditions: Vec<Condition> },
    /// Spend a freshly created royalty coin through the settlement puzzle,
    /// paying one notarized royalty payment tagged with the NFT id.
    RoyaltySettlement { coin: Coin, nonce: Hash32, payment: Payment },
    /// Spend one CAT group together; only the first coin carries the
    /// conditions.
    Cat { asset_id: Hash32, coins: Vec<CatCoin>, conditions: Vec<Condition> },
    /// Lock one NFT into settlement, carrying the trade prices and the
    /// claimed conditions.
    Nft { nft: NftRecord, trade_prices: Vec<TradePrice>, conditions: Vec<Condition> },
}

/// The id of a coin, as the contracts speak of it.
pub open spec fn coin_id_view(c: Coin) -> Seq<u8> {
    coin_id_of(c.parent_coin_id@, c.puzzle_hash@, c.amount)
}

/// The announcement ids of a list of assertions.
pub open spec fn assertion_ids(assertions: Seq<Assertion>) -> Seq<Seq<u8>> {
    assertions.map_values(|a: Assertion| a.announcement_id@)
}

/// The announcement ids a condition list asserts, in order.
pub open spec fn announce_ids(conds: Seq<Condition>) -> Seq<Seq<u8>>
    decreases conds.len(),
{
    if conds.len() == 0 {
        Seq::empty()
    } else {
        let rest = announce_ids(conds.drop_last());
        match conds.last() {
            Condition::AssertPuzzleAnnouncement { announcement_id } => rest.push(
                announcement_id@,
            ),
            _ => rest,
        }
    }
}

/// The coin ids a condition list asserts concurrent, in order.
pub open spec fn concurrent_ids(conds: Seq<Condition>) -> Seq<Seq<u8>>
    decreases conds.len(),
{
    if conds.len() == 0 {
        Seq::empty()
    } else {
        let rest = concurrent_ids(conds.drop_last());
        match conds.last() {
            Condition::AssertConcurrentSpend { coin_id } => rest.push(coin_id@),
            _ => rest,
        }
    }
}

/// The (puzzle hash, amount, memos) of each coin a condition list creates,
/// in order.
pub open spec fn created_outputs(conds: Seq<Condition>) -> Seq<(Seq<u8>, int, Seq<Seq<u8>>)>
    decreases conds.len(),
{
    if conds.len() == 0 {
        Seq::empty()
    } else {
        let rest = created_outputs(conds.drop_last());
        match conds.last() {
            Condition::CreateCoin { puzzle_hash, amount, memos } => rest.push(
                (puzzle_hash@, amount as int, memos@.map_values(|m: Hash32| m@)),
            ),
            _ => rest,
        }
    }
}

/// The reserved fees of a condition list, in order.
pub open spec fn reserved_fees(conds: Seq<Condition>) -> Seq<int>
    decreases conds.len(),
{
    if conds.len() == 0 {
        Seq::empty()
    } else {
        let rest = reserved_fees(conds.drop_last());
        match conds.last() {
            Condition::ReserveFee { amount } => rest.push(amount as int),
            _ => rest,
        }
    }
}

/// The four accessors partition a condition list: every condition is an
/// announcement assertion, a concurrent-spend assertion, a created output
/// or a reserved fee, so the four lists together account for every entry.
pub proof fn lemma_condition_partition(conds: Seq<Condition>)
    ensures
        announce_ids(conds).len() + concurrent_ids(conds).len() + created_outputs(conds).len()
            + reserved_fees(conds).len() == conds.len(),
    decreases conds.len(),
{
    if conds.len() > 0 {
        lemma_condition_partition(conds.drop_last());
    }
}

/// The total value a condition list creates.
pub open spec fn created_sum(conds: Seq<Condition>) -> int
    decreases conds.len(),
{
    if conds.len() == 0 {
        0
    } else {
        created_sum(conds.drop_last()) + match conds.last() {
            Condition::CreateCoin { amount, .. } => amount as int,
            _ => 0,
        }
    }
}

/// The total fee a condition list reserves.
pub open spec fn fee_sum(conds: Seq<Condition>) -> int
    decreases conds.len(),
{
    if conds.len() == 0 {
        0
    } else {
        fee_sum(conds.drop_last()) + match conds.last() {
            Condition::ReserveFee { amount } => amount as int,
            _ => 0,
        }
    }
}

/// The ids of the primary coins of a build, in seeding order: the first
/// currency coin if any, the first coin of each CAT group, then every NFT
/// coin.
pub open spec fn primary_id_views(spend: OfferSpend) -> Seq<Seq<u8>> {
    let xch: Seq<Seq<u8>> = if spend.p2_coins@.len() > 0 {
        seq![coin_id_view(spend.p2_coins@[0])]
    } else {
        Seq::empty()
    };
    xch + spend.cats@.map_values(|c: CatOfferSpend| coin_id_view(c.coins@[0].coin))
        + spend.nfts@.map_values(|n: NftOfferSpend| coin_id_view(n.nft.coin))
}

/// The ring target of primary coin `i` out of `n` primaries: none when the
/// ring is trivial, otherwise the previous primary, wrapping at the front.
pub open spec fn ring_target(ids: Seq<Seq<u8>>, i: int) -> Seq<Seq<u8>> {
    if ids.len() <= 1 {
        Seq::empty()
    } else if i == 0 {
        seq![ids[ids.len() - 1]]
    } else {
        seq![ids[i - 1]]
    }
}

/// The announcement assertions primary coin `i` carries: the whole bag on
/// the first primary coin, nothing on the rest.
pub open spec fn base_assertions(assertions: Seq<Assertion>, i: int) -> Seq<Seq<u8>> {
    if i == 0 {
        assertion_ids(assertions)
    } else {
        Seq::empty()
    }
}

/// The currency change of a build: what the selected coins hold beyond the
/// offered amount, the fee and the royalties.
pub open spec fn xch_change(spend: OfferSpend) -> int {
    sum_coin_amounts(spend.p2_coins@) - spend.p2_amount - spend.fee - sum_royalty_amounts(
        spend.royalties@,
    )
}

/// The change of one CAT group.
pub open spec fn cat_change(group: CatOfferSpend) -> int {
    sum_cat_amounts(group.coins@) - group.amount
}

/// Whether some CAT group's change is negative or does not fit an amount.
pub open spec fn cats_fault(cats: Seq<CatOfferSpend>) -> bool
    decreases cats.len(),
{
    if cats.len() == 0 {
        false
    } else {
        cats_fault(cats.drop_last()) || cat_change(cats.last()) < 0 || cat_change(cats.last())
            > u64::MAX
    }
}

/// Whether the currency leg's change is negative or does not fit.
pub open spec fn xch_fault(spend: OfferSpend) -> bool {
    spend.p2_coins@.len() > 0 && (xch_change(spend) < 0 || xch_change(spend) > u64::MAX)
}

/// A bag of announcement assertions, as conditions, asserts exactly those
/// announcements and nothing else.
proof fn lemma_assertion_condition_views(assertions: Seq<Assertion>)
    ensures
        announce_ids(assertion_conditions(assertions)) == assertion_ids(assertions),
        concurrent_ids(assertion_conditions(assertions)) == Seq::<Seq<u8>>::empty(),
        created_outputs(assertion_conditions(assertions)) == Seq::<
            (Seq<u8>, int, Seq<Seq<u8>>),
        >::empty(),
        reserved_fees(assertion_conditions(assertions)) == Seq::<int>::empty(),
        created_sum(assertion_conditions(assertions)) == 0,
        fee_sum(assertion_conditions(assertions)) == 0,
    decreases assertions.len(),
{
    let conds = assertion_conditions(assertions);
    if assertions.len() == 0 {
        assert(conds =~= Seq::<Condition>::empty());
    } else {
        lemma_assertion_condition_views(assertions.drop_last());
        assert(conds.drop_last() =~= assertion_conditions(assertions.drop_last()));
        assert(announce_ids(conds) =~~= assertion_ids(assertions));
        assert(concurrent_ids(conds) =~~= Seq::<Seq<u8>>::empty());
        assert(created_outputs(conds) =~~= Seq::<(Seq<u8>, int, Seq<Seq<u8>>)>::empty());
        assert(reserved_fees(conds) =~= Seq::<int>::empty());
    }
}

/// What the linker's assignment to primary coin `i` looks like through the
/// four accessors: the base announcement bag, the single ring target, and
/// no outputs or fees.
proof fn lemma_assigned_views(ids: Seq<Hash32>, assertions: Seq<Assertion>, i: int)
    requires
        ids.len() > 0,
        0 <= i < ids.len(),
    ensures
        announce_ids(PrimaryConditions::assigned_conditions(ids, assertions, i))
            == base_assertions(assertions, i),
        concurrent_ids(PrimaryConditions::assigned_conditions(ids, assertions, i)) == ring_target(
            ids.map_values(|h: Hash32| h@),
            i,
        ),
        created_outputs(PrimaryConditions::assigned_conditions(ids, assertions, i)) == Seq::<
            (Seq<u8>, int, Seq<Seq<u8>>),
        >::empty(),
        reserved_fees(PrimaryConditions::assigned_conditions(ids, assertions, i)) == Seq::<
            int,
        >::empty(),
        created_sum(PrimaryConditions::assigned_conditions(ids, assertions, i)) == 0,
        fee_sum(PrimaryConditions::assigned_conditions(ids, assertions, i)) == 0,
{
    let conds = PrimaryConditions::assigned_conditions(ids, assertions, i);
    let idviews = ids.map_values(|h: Hash32| h@);
    lemma_assertion_condition_views(assertions);
    if ids.len() == 1 {
        assert(conds == assertion_conditions(assertions));
        assert(ring_target(idviews, i) =~~= Seq::<Seq<u8>>::empty());
    } else {
        let n = ids.len() as int;
        let prev = if i == 0 {
            ids[n - 1]
        } else {
            ids[i - 1]
        };
        let base: Seq<Condition> = if i == 0 {
            assertion_conditions(assertions)
        } else {
            Seq::empty()
        };
        assert(conds == base.push(Condition::AssertConcurrentSpend { coin_id: prev }));
        assert(conds.drop_last() =~= base);
        assert(conds.last() == (Condition::AssertConcurrentSpend { coin_id: prev }));
        if i != 0 {
            lemma_assertion_condition_views(Seq::empty());
            assert(assertion_conditions(Seq::<Assertion>::empty()) =~= Seq::<Condition>::empty());
        }
        assert(announce_ids(conds) =~~= base_assertions(assertions, i));
        assert(concurrent_ids(conds) =~~= ring_target(idviews, i));
        assert(created_outputs(conds) =~~= Seq::<(Seq<u8>, int, Seq<Seq<u8>>)>::empty());
        assert(reserved_fees(conds) =~= Seq::<int>::empty());
    }
}

/// Append a created-output condition, tracking all four accessors.
fn push_create(
    conds: &mut Vec<Condition>,
    puzzle_hash: Hash32,
    amount: u64,
    memos: Vec<Hash32>,
)
    ensures
        announce_ids(final(conds)@) == announce_ids(old(conds)@),
        concurrent_ids(final(conds)@) == concurrent_ids(old(conds)@),
        created_outputs(final(conds)@) == created_outputs(old(conds)@).push(
            (puzzle_hash@, amount as int, memos@.map_values(|m: Hash32| m@)),
        ),
        reserved_fees(final(conds)@) == reserved_fees(old(conds)@),
        created_sum(final(conds)@) == created_sum(old(conds)@) + amount,
        fee_sum(final(conds)@) == fee_sum(old(conds)@),
{
    let ghost before = conds@;
    let ghost memo_views = memos@.map_values(|m: Hash32| m@);
    let ghost cond = Condition::CreateCoin { puzzle_hash, amount, memos: memos };
    conds.push(Condition::CreateCoin { puzzle_hash, amount, memos });
    proof {
        assert(conds@.drop_last() =~= before);
        assert(announce_ids(conds@) =~~= announce_ids(before));
        assert(concurrent_ids(conds@) =~~= concurrent_ids(before));
        assert(created_outputs(conds@) =~~= created_outputs(before).push(
            (puzzle_hash@, amount as int, memo_views),
        ));
        assert(reserved_fees(conds@) =~= reserved_fees(before));
    }
}

/// Append a fee reservation, tracking all four accessors.
fn push_fee(conds: &mut Vec<Condition>, amount: u64)
    ensures
        announce_ids(final(conds)@) == announce_ids(old(conds)@),
        concurrent_ids(final(conds)@) == concurrent_ids(old(conds)@),
        created_outputs(final(conds)@) == created_outputs(old(conds)@),
        reserved_fees(final(conds)@) == reserved_fees(old(conds)@).push(amount as int),
        created_sum(final(conds)@) == created_sum(old(conds)@),
        fee_sum(final(conds)@) == fee_sum(old(conds)@) + amount,
{
    let ghost before = conds@;
    conds.push(Condition::ReserveFee { amount });
    proof {
        assert(conds@.drop_last() =~= before);
        assert(announce_ids(conds@) =~~= announce_ids(before));
        assert(concurrent_ids(conds@) =~~= concurrent_ids(before));
        assert(created_outputs(conds@) =~~= created_outputs(before));
        assert(reserved_fees(conds@) =~= reserved_fees(before).push(amount as int));
    }
}

/// The sum of any coin set fits the unbounded tally below `u128` range.
proof fn lemma_sum_coins_bound(coins: Seq<Coin>)
    ensures
        0 <= sum_coin_amounts(coins) <= coins.len() * (u64::MAX as int),
    decreases coins.len(),
{
    if coins.len() > 0 {
        lemma_sum_coins_bound(coins.drop_last());
    }
}

/// The sum of any CAT coin set fits the unbounded tally below `u128` range.
proof fn lemma_sum_cats_bound(coins: Seq<CatCoin>)
    ensures
        0 <= sum_cat_amounts(coins) <= coins.len() * (u64::MAX as int),
    decreases coins.len(),
{
    if coins.len() > 0 {
        lemma_sum_cats_bound(coins.drop_last());
    }
}

/// The royalty total of any payment list is non-negative and bounded.
proof fn lemma_sum_royalties_bound(royalties: Seq<RoyaltyPayment>)
    ensures
        0 <= sum_royalty_amounts(royalties) <= royalties.len() * (u64::MAX as int),
    decreases royalties.len(),
{
    if royalties.len() > 0 {
        lemma_sum_royalties_bound(royalties.drop_last());
    }
}

/// Total the selected currency coins without overflow.
fn sum_coins(coins: &Vec<Coin>) -> (t: u128)
    ensures
        t == sum_coin_amounts(coins@),
{
    let n = coins.len();
    proof {
        assert(coins@.len() * (u64::MAX as int) <= u128::MAX as int) by (nonlinear_arith)
            requires
                coins@.len() <= u64::MAX,
        ;
    }
    let mut total: u128 = 0;
    let mut i: usize = 0;
    while i < coins.len()
        invariant
            i <= coins.len(),
            coins@.len() * (u64::MAX as int) <= u128::MAX,
            total == sum_coin_amounts(coins@.take(i as int)),
        decreases coins.len() - i,
    {
        proof {
            assert(coins@.take(i + 1 as int).drop_last() =~= coins@.take(i as int));
            assert(coins@.take(i + 1 as int).last() == coins@[i as int]);
            lemma_sum_coins_bound(coins@.take(i as int));
            assert((i as int) * (u64::MAX as int) + (u64::MAX as int) == (i + 1)
                * (u64::MAX as int)) by (nonlinear_arith);
            assert((i + 1) * (u64::MAX as int) <= coins@.len() * (u64::MAX as int))
                by (nonlinear_arith)
                requires
                    i + 1 <= coins@.len(),
            ;
        }
        total = total + coins[i].amount as u128;
        i = i + 1;
    }
    assert(coins@.take(coins@.len() as int) =~= coins@);
    total
}

/// Total one CAT group's coins without overflow.
fn sum_cats(coins: &Vec<CatCoin>) -> (t: u128)
    ensures
        t == sum_cat_amounts(coins@),
{
    let n = coins.len();
    proof {
        assert(coins@.len() * (u64::MAX as int) <= u128::MAX as int) by (nonlinear_arith)
            requires
                coins@.len() <= u64::MAX,
        ;
    }
    let mut total: u128 = 0;
    let mut i: usize = 0;
    while i < coins.len()
        invariant
            i <= coins.len(),
            coins@.len() * (u64::MAX as int) <= u128::MAX,
            total == sum_cat_amounts(coins@.take(i as int)),
        decreases coins.len() - i,
    {
        proof {
            assert(coins@.take(i + 1 as int).drop_last() =~= coins@.take(i as int));
            assert(coins@.take(i + 1 as int).last() == coins@[i as int]);
            lemma_sum_cats_bound(coins@.take(i as int));
            assert((i as int) * (u64::MAX as int) + (u64::MAX as int) == (i + 1)
                * (u64::MAX as int)) by (nonlinear_arith);
            assert((i + 1) * (u64::MAX as int) <= coins@.len() * (u64::MAX as int))
                by (nonlinear_arith)
                requires
                    i + 1 <= coins@.len(),
            ;
        }
        total = total + coins[i].coin.amount as u128;
        i = i + 1;
    }
    assert(coins@.take(coins@.len() as int) =~= coins@);
    total
}

/// Total the royalty payments without overflow.
fn sum_royalties(royalties: &Vec<RoyaltyPayment>) -> (t: u128)
    ensures
        t == sum_royalty_amounts(royalties@),
{
    let n = royalties.len();
    proof {
        assert(royalties@.len() * (u64::MAX as int) <= u128::MAX as int) by (nonlinear_arith)
            requires
                royalties@.len() <= u64::MAX,
        ;
    }
    let mut total: u128 = 0;
    let mut i: usize = 0;
    while i < royalties.len()
        invariant
            i <= royalties.len(),
            royalties@.len() * (u64::MAX as int) <= u128::MAX,
            total == sum_royalty_amounts(royalties@.take(i as int)),
        decreases royalties.len() - i,
    {
        proof {
            assert(royalties@.take(i + 1 as int).drop_last() =~= royalties@.take(i as int));
            assert(royalties@.take(i + 1 as int).last() == royalties@[i as int]);
            lemma_sum_royalties_bound(royalties@.take(i as int));
            assert((i as int) * (u64::MAX as int) + (u64::MAX as int) == (i + 1)
                * (u64::MAX as int)) by (nonlinear_arith);
            assert((i + 1) * (u64::MAX as int) <= royalties@.len() * (u64::MAX as int))
                by (nonlinear_arith)
                requires
                    i + 1 <= royalties@.len(),
            ;
        }
        total = total + royalties[i].amount as u128;
        i = i + 1;
    }
    assert(royalties@.take(royalties@.len() as int) =~= royalties@);
    total
}


/// What one royalty settlement spend must look like: a coin created by the
/// first currency coin at the royalty's settlement wrapper, paying the
/// royalty recipient, tagged with the NFT id as nonce.
pub open spec fn royalty_spend_ok(s: PlannedSpend, r: RoyaltyPayment, parent: Seq<u8>) -> bool {
    s matches PlannedSpend::RoyaltySettlement { coin, nonce, payment } && {
        &&& coin.parent_coin_id@ == parent
        &&& coin.puzzle_hash == r.settlement_puzzle_hash
        &&& coin.amount == r.amount
        &&& nonce == r.nft_id
        &&& payment.puzzle_hash == r.p2_puzzle_hash
        &&& payment.amount == r.amount
        &&& payment.memos matches Some(m) && m@ == seq![r.p2_puzzle_hash]
    }
}

/// `royalty_spend_ok`, stated at the view level: what one royalty
/// settlement spend must look like, given only the (nft id, payee,
/// settlement wrapper, amount) view of the royalty payment.
pub open spec fn royalty_spend_view_ok(
    s: PlannedSpend,
    r: (Seq<u8>, Seq<u8>, Seq<u8>, int),
    parent: Seq<u8>,
) -> bool {
    s matches PlannedSpend::RoyaltySettlement { coin, nonce, payment } && {
        &&& coin.parent_coin_id@ == parent
        &&& coin.puzzle_hash@ == r.2
        &&& coin.amount as int == r.3
        &&& nonce@ == r.0
        &&& payment.puzzle_hash@ == r.1
        &&& payment.amount as int == r.3
        &&& payment.memos matches Some(m) && m@.map_values(|x: Hash32| x@) == seq![r.1]
    }
}

/// The outputs the royalty payments add to the currency leg.
pub open spec fn royalty_created_views(rs: Seq<RoyaltyPayment>) -> Seq<
    (Seq<u8>, int, Seq<Seq<u8>>),
> {
    rs.map_values(
        |r: RoyaltyPayment|
            (r.settlement_puzzle_hash@, r.amount as int, Seq::<Seq<u8>>::empty()),
    )
}

/// Every output of the currency leg: the settlement-encumbered coin when
/// currency is offered, one coin per royalty payment, and the change.
pub open spec fn xch_created_spec(spend: OfferSpend) -> Seq<(Seq<u8>, int, Seq<Seq<u8>>)> {
    let settle: Seq<(Seq<u8>, int, Seq<Seq<u8>>)> = if spend.p2_amount > 0 {
        seq![(settlement_payments_hash(), spend.p2_amount as int, Seq::<Seq<u8>>::empty())]
    } else {
        Seq::empty()
    };
    let change: Seq<(Seq<u8>, int, Seq<Seq<u8>>)> = if xch_change(spend) > 0 {
        seq![(spend.change_puzzle_hash@, xch_change(spend), Seq::<Seq<u8>>::empty())]
    } else {
        Seq::empty()
    };
    settle + royalty_created_views(spend.royalties@) + change
}

/// What the currency leg's conditions must say: the whole assertion bag,
/// its ring edge, exactly the outputs of `xch_created_spec`, the fee when
/// one is due — and, summed, exactly the value of the selected coins.
pub open spec fn xch_conditions_ok(spend: OfferSpend, conds: Seq<Condition>) -> bool {
    &&& announce_ids(conds) == assertion_ids(spend.assertions@)
    &&& concurrent_ids(conds) == ring_target(primary_id_views(spend), 0)
    &&& created_outputs(conds) == xch_created_spec(spend)
    &&& reserved_fees(conds) == if spend.fee > 0 {
        seq![spend.fee as int]
    } else {
        Seq::<int>::empty()
    }
    &&& created_sum(conds) + fee_sum(conds) == sum_coin_amounts(spend.p2_coins@)
}

/// Every output of one CAT leg: the settlement-encumbered coin, memoed to
/// the settlement puzzle, and the change, memoed to the change address.
pub open spec fn cat_created_spec(spend: OfferSpend, k: int) -> Seq<(Seq<u8>, int, Seq<Seq<u8>>)> {
    let g = spend.cats@[k];
    let change: Seq<(Seq<u8>, int, Seq<Seq<u8>>)> = if cat_change(g) > 0 {
        seq![(spend.change_puzzle_hash@, cat_change(g), seq![spend.change_puzzle_hash@])]
    } else {
        Seq::empty()
    };
    seq![(settlement_payments_hash(), g.amount as int, seq![settlement_payments_hash()])] + change
}

/// What CAT leg `k`'s first-coin conditions must say.
pub open spec fn cat_conditions_ok(spend: OfferSpend, k: int, conds: Seq<Condition>) -> bool {
    let xnum: int = if spend.p2_coins@.len() > 0 {
        1
    } else {
        0
    };
    &&& announce_ids(conds) == base_assertions(spend.assertions@, xnum + k)
    &&& concurrent_ids(conds) == ring_target(primary_id_views(spend), xnum + k)
    &&& created_outputs(conds) == cat_created_spec(spend, k)
    &&& reserved_fees(conds) == Seq::<int>::empty()
    &&& created_sum(conds) == sum_cat_amounts(spend.cats@[k].coins@)
}

/// What CAT leg `k` of the plan must be.
pub open spec fn cat_spend_ok(spend: OfferSpend, k: int, s: PlannedSpend) -> bool {
    s matches PlannedSpend::Cat { asset_id, coins, conditions } && {
        &&& asset_id == spend.cats@[k].asset_id
        &&& coins@ == spend.cats@[k].coins@
        &&& cat_conditions_ok(spend, k, conditions@)
    }
}

/// A bad change in one CAT group is a fault of the whole list.
proof fn lemma_cats_fault_member(cats: Seq<CatOfferSpend>, k: int)
    requires
        0 <= k < cats.len(),
        cat_change(cats[k]) < 0 || cat_change(cats[k]) > u64::MAX,
    ensures
        cats_fault(cats),
    decreases cats.len(),
{
    if k < cats.len() - 1 {
        lemma_cats_fault_member(cats.drop_last(), k);
    }
}

/// The linker's output, claimed up to a cursor: every entry at or past the
/// cursor is unclaimed and still holds exactly what the linker assigned.
pub open spec fn pc_ok(
    pc: PrimaryConditions,
    ids: Seq<Hash32>,
    assertions: Seq<Assertion>,
    cursor: int,
) -> bool {
    &&& pc.entries@.len() == ids.len()
    &&& forall|t: int| cursor <= t < ids.len() ==> !(#[trigger] pc.entries@[t]).claimed
    &&& forall|t: int|
        cursor <= t < ids.len() ==> (#[trigger] pc.entries@[t]).conditions@
            == PrimaryConditions::assigned_conditions(ids, assertions, t)
}

/// What NFT leg `m` of the plan must be: the record and trade prices pass
/// through; the conditions are exactly what the linker assigned.
pub open spec fn nft_spend_ok(spend: OfferSpend, m: int, s: PlannedSpend) -> bool {
    let xnum: int = if spend.p2_coins@.len() > 0 {
        1
    } else {
        0
    };
    let pk = xnum + spend.cats@.len() + m;
    s matches PlannedSpend::Nft { nft, trade_prices, conditions } && {
        &&& nft == spend.nfts@[m].nft
        &&& trade_prices@ == spend.nfts@[m].trade_prices@
        &&& announce_ids(conditions@) == base_assertions(spend.assertions@, pk)
        &&& concurrent_ids(conditions@) == ring_target(primary_id_views(spend), pk)
        &&& created_outputs(conditions@) == Seq::<(Seq<u8>, int, Seq<Seq<u8>>)>::empty()
        &&& reserved_fees(conditions@) == Seq::<int>::empty()
    }
}

/// Assemble the planned spends of one offer build, in a single pass with
/// no retries: royalty settlement spends, then the currency leg, one leg
/// per CAT group, and one settlement lock per offered NFT.
///
/// Every primary coin's conditions are claimed exactly once. Every leg
/// conserves value exactly: a deficit against the selected coins, or a
/// change that does not fit an amount, aborts the whole build with
/// `ArithmeticFault` and surfaces no partial state.
///
/// With no currency coins selected the currency leg — settlement output,
/// royalty spends, change and fee alike — is skipped entirely, whatever
/// the offered amount says: callers make the selection cover the required
/// currency total before assembling.
#[verifier::loop_isolation(false)]
#[verifier::rlimit(100)]
pub fn spend_assets(spend: OfferSpend) -> (r: Result<Vec<PlannedSpend>, WalletError>)
    requires
        forall|k: int| 0 <= k < spend.cats@.len() ==> (#[trigger] spend.cats@[k]).coins@.len() > 0,
    ensures
        match r {
            Ok(spends) => ({
                let has_xch = spend.p2_coins@.len() > 0;
                let rn: int = if has_xch {
                    spend.royalties@.len() as int
                } else {
                    0
                };
                let xnum: int = if has_xch {
                    1
                } else {
                    0
                };
                &&& !xch_fault(spend)
                &&& !cats_fault(spend.cats@)
                &&& spends@.len() == rn + xnum + spend.cats@.len() + spend.nfts@.len()
                &&& forall|q: int|
                    0 <= q < rn ==> royalty_spend_ok(
                        #[trigger] spends@[q],
                        spend.royalties@[q],
                        coin_id_view(spend.p2_coins@[0]),
                    )
                &&& (has_xch ==> (spends@[rn] matches PlannedSpend::Xch { coins, conditions }
                    && coins@ == spend.p2_coins@ && xch_conditions_ok(spend, conditions@)))
                &&& forall|i: int|
                    rn + xnum <= i < rn + xnum + spend.cats@.len() ==> cat_spend_ok(
                        spend,
                        i - rn - xnum,
                        #[trigger] spends@[i],
                    )
                &&& forall|i: int|
                    rn + xnum + spend.cats@.len() <= i < spends@.len() ==> nft_spend_ok(
                        spend,
                        i - rn - xnum - spend.cats@.len(),
                        #[trigger] spends@[i],
                    )
            }),
            Err(e) => e == WalletError::ArithmeticFault && (xch_fault(spend) || cats_fault(
                spend.cats@,
            )),
        },
        (xch_fault(spend) || cats_fault(spend.cats@)) ==> r is Err,
{
    let ghost spend0 = spend;
    let has_xch = spend.p2_coins.len() > 0;
    let ghost xnum: int = if has_xch {
        1
    } else {
        0
    };
    let ghost rn: int = if has_xch {
        spend0.royalties@.len() as int
    } else {
        0
    };

    // Seed the primary coin ids: first currency coin, CAT group firsts,
    // then every NFT coin.
    let mut primary_ids: Vec<Hash32> = Vec::new();
    if has_xch {
        primary_ids.push(coin_id(&spend.p2_coins[0]));
    }
    let mut k: usize = 0;
    while k < spend.cats.len()
        invariant
            k <= spend0.cats@.len(),
            primary_ids@.len() == xnum + k,
            xnum == 1 ==> primary_ids@[0]@ == coin_id_view(spend0.p2_coins@[0]),
            forall|t: int|
                0 <= t < k ==> (#[trigger] primary_ids@[xnum + t])@ == coin_id_view(
                    spend0.cats@[t].coins@[0].coin,
                ),
        decreases spend.cats@.len() - k,
    {
        primary_ids.push(coin_id(&spend.cats[k].coins[0].coin));
        k = k + 1;
    }
    let mut m: usize = 0;
    while m < spend.nfts.len()
        invariant
            m <= spend0.nfts@.len(),
            primary_ids@.len() == xnum + spend0.cats@.len() + m,
            xnum == 1 ==> primary_ids@[0]@ == coin_id_view(spend0.p2_coins@[0]),
            forall|t: int|
                0 <= t < spend0.cats@.len() ==> (#[trigger] primary_ids@[xnum + t])@
                    == coin_id_view(spend0.cats@[t].coins@[0].coin),
            forall|t: int|
                0 <= t < m ==> (#[trigger] primary_ids@[xnum + spend0.cats@.len() + t])@
                    == coin_id_view(spend0.nfts@[t].nft.coin),
        decreases spend.nfts@.len() - m,
    {
        primary_ids.push(coin_id(&spend.nfts[m].nft.coin));
        m = m + 1;
    }
    let ghost primas = primary_id_views(spend0);
    proof {
        assert forall|i: int|
            0 <= i < primary_ids@.len() implies primary_ids@.map_values(|h: Hash32| h@)[i]
            == primas[i] by {
            if i < xnum {
            } else if i < xnum + spend0.cats@.len() {
                let t = i - xnum;
                assert(primary_ids@[xnum + t]@ == coin_id_view(spend0.cats@[t].coins@[0].coin));
            } else {
                let t = i - xnum - spend0.cats@.len();
                assert(primary_ids@[xnum + spend0.cats@.len() + t]@ == coin_id_view(
                    spend0.nfts@[t].nft.coin,
                ));
            }
        }
        assert(primary_ids@.map_values(|h: Hash32| h@) =~~= primas);
    }

    let mut spends: Vec<PlannedSpend> = Vec::new();
    if primary_ids.len() == 0 {
        assert(!cats_fault(spend0.cats@));
        return Ok(spends);
    }

    let mut pc = PrimaryConditions::link(&primary_ids, &spend.assertions);
    let ghost idsv = primary_ids@;
    let mut cursor: usize = 0;

    // The currency leg: claimed assertions, the settlement-encumbered
    // coin, one created coin and one settlement spend per royalty, change
    // and fee — all carried by the first selected coin.
    if has_xch {
        let first_id = primary_ids[0];
        let mut conditions = pc.claim(0);
        cursor = 1;
        proof {
            lemma_assigned_views(idsv, spend0.assertions@, 0);
        }
        let ghost settle_part = if spend0.p2_amount > 0 {
            seq![(settlement_payments_hash(), spend0.p2_amount as int, Seq::<Seq<u8>>::empty())]
        } else {
            Seq::<(Seq<u8>, int, Seq<Seq<u8>>)>::empty()
        };
        if spend.p2_amount > 0 {
            push_create(&mut conditions, settlement_puzzle_hash(), spend.p2_amount, Vec::new());
        }
        proof {
            assert(created_outputs(conditions@) =~~= settle_part);
            assert(royalty_created_views(spend0.royalties@.take(0)) =~~= Seq::<
                (Seq<u8>, int, Seq<Seq<u8>>),
            >::empty());
            assert(created_outputs(conditions@) =~~= settle_part + royalty_created_views(
                spend0.royalties@.take(0),
            ));
        }
        let mut q: usize = 0;
        while q < spend.royalties.len()
            invariant
                q <= spend0.royalties@.len(),
                announce_ids(conditions@) == assertion_ids(spend0.assertions@),
                concurrent_ids(conditions@) == ring_target(primas, 0),
                reserved_fees(conditions@) == Seq::<int>::empty(),
                created_outputs(conditions@) == settle_part + royalty_created_views(
                    spend0.royalties@.take(q as int),
                ),
                created_sum(conditions@) == (if spend0.p2_amount > 0 {
                    spend0.p2_amount as int
                } else {
                    0
                }) + sum_royalty_amounts(spend0.royalties@.take(q as int)),
                fee_sum(conditions@) == 0,
                spends@.len() == q,
                forall|t: int|
                    0 <= t < q ==> royalty_spend_ok(
                        #[trigger] spends@[t],
                        spend0.royalties@[t],
                        coin_id_view(spend0.p2_coins@[0]),
                    ),
            decreases spend.royalties@.len() - q,
        {
            let royalty = spend.royalties[q];
            push_create(&mut conditions, royalty.settlement_puzzle_hash, royalty.amount, Vec::new());
            let coin = Coin {
                parent_coin_id: first_id,
                puzzle_hash: royalty.settlement_puzzle_hash,
                amount: royalty.amount,
            };
            let payment = Payment {
                puzzle_hash: royalty.p2_puzzle_hash,
                amount: royalty.amount,
                memos: Some(vec![royalty.p2_puzzle_hash]),
            };
            spends.push(PlannedSpend::RoyaltySettlement { coin, nonce: royalty.nft_id, payment });
            proof {
                assert(spend0.royalties@.take(q + 1 as int).drop_last() =~= spend0.royalties@.take(
                    q as int,
                ));
                assert(spend0.royalties@.take(q + 1 as int).last() == spend0.royalties@[q as int]);
                assert(sum_royalty_amounts(spend0.royalties@.take(q + 1 as int))
                    == sum_royalty_amounts(spend0.royalties@.take(q as int)) + royalty.amount);
                assert(royalty_created_views(spend0.royalties@.take(q + 1 as int))
                    =~~= royalty_created_views(spend0.royalties@.take(q as int)).push(
                    (royalty.settlement_puzzle_hash@, royalty.amount as int, Seq::<Seq<u8>>::empty()),
                ));
                assert(created_outputs(conditions@) =~~= settle_part + royalty_created_views(
                    spend0.royalties@.take(q + 1 as int),
                ));
                assert(spends@[q as int] == (PlannedSpend::RoyaltySettlement {
                    coin,
                    nonce: royalty.nft_id,
                    payment,
                }));
                assert(payment.memos->Some_0@ =~= seq![royalty.p2_puzzle_hash]);
                assert(royalty_spend_ok(
                    spends@[q as int],
                    spend0.royalties@[q as int],
                    coin_id_view(spend0.p2_coins@[0]),
                ));
            }
            q = q + 1;
        }
        assert(spend0.royalties@.take(spend0.royalties@.len() as int) =~= spend0.royalties@);
        let total = sum_coins(&spend.p2_coins);
        let roysum = sum_royalties(&spend.royalties);
        proof {
            lemma_sum_royalties_bound(spend0.royalties@);
            assert(spend0.royalties@.len() * (u64::MAX as int) + 2 * (u64::MAX as int)
                <= u128::MAX as int) by (nonlinear_arith)
                requires
                    spend0.royalties@.len() <= u64::MAX,
            ;
        }
        let need = spend.p2_amount as u128 + spend.fee as u128 + roysum;
        if total < need {
            assert(xch_fault(spend0));
            return Err(WalletError::ArithmeticFault);
        }
        let change128 = total - need;
        if change128 > u64::MAX as u128 {
            assert(xch_fault(spend0));
            return Err(WalletError::ArithmeticFault);
        }
        let change = change128 as u64;
        assert(change as int == xch_change(spend0));
        if change > 0 {
            push_create(&mut conditions, spend.change_puzzle_hash, change, Vec::new());
        }
        if spend.fee > 0 {
            push_fee(&mut conditions, spend.fee);
        }
        proof {
            assert(created_outputs(conditions@) =~~= xch_created_spec(spend0));
            assert(reserved_fees(conditions@) =~= (if spend0.fee > 0 {
                seq![spend0.fee as int]
            } else {
                Seq::<int>::empty()
            }));
            assert(xch_conditions_ok(spend0, conditions@));
        }
        let coins = spend.p2_coins;
        spends.push(PlannedSpend::Xch { coins, conditions });
    }

    // The CAT legs: per group, the first coin carries the claimed
    // assertions, the settlement-encumbered output and the change.
    let ghost catn = spend0.cats@.len() as int;
    let mut cats_vec = spend.cats;
    let mut k2: usize = 0;
    assert(cats_vec@ =~= spend0.cats@.skip(0));
    while cats_vec.len() > 0
        invariant
            0 <= k2 <= catn,
            cats_vec@ == spend0.cats@.skip(k2 as int),
            cursor == xnum + k2,
            pc_ok(pc, idsv, spend0.assertions@, cursor as int),
            spends@.len() == rn + xnum + k2,
            !cats_fault(spend0.cats@.take(k2 as int)),
            forall|t: int|
                0 <= t < rn ==> royalty_spend_ok(
                    #[trigger] spends@[t],
                    spend0.royalties@[t],
                    coin_id_view(spend0.p2_coins@[0]),
                ),
            has_xch ==> (spends@[rn] matches PlannedSpend::Xch { coins, conditions } && coins@
                == spend0.p2_coins@ && xch_conditions_ok(spend0, conditions@)),
            forall|t: int|
                0 <= t < k2 ==> cat_spend_ok(spend0, t, #[trigger] spends@[rn + xnum + t]),
        decreases cats_vec@.len(),
    {
        let group = cats_vec.remove(0);
        proof {
            assert(spend0.cats@.skip(k2 as int)[0] == spend0.cats@[k2 as int]);
            assert(cats_vec@ =~= spend0.cats@.skip(k2 + 1 as int));
        }
        let mut conditions = pc.claim(cursor);
        cursor = cursor + 1;
        proof {
            lemma_assigned_views(idsv, spend0.assertions@, xnum + k2);
        }
        let total = sum_cats(&group.coins);
        if total < group.amount as u128 {
            proof {
                lemma_cats_fault_member(spend0.cats@, k2 as int);
            }
            return Err(WalletError::ArithmeticFault);
        }
        let change128 = total - group.amount as u128;
        if change128 > u64::MAX as u128 {
            proof {
                lemma_cats_fault_member(spend0.cats@, k2 as int);
            }
            return Err(WalletError::ArithmeticFault);
        }
        let change = change128 as u64;
        assert(change as int == cat_change(spend0.cats@[k2 as int]));
        let settlement = settlement_puzzle_hash();
        push_create(&mut conditions, settlement, group.amount, vec![settlement]);
        if change > 0 {
            push_create(&mut conditions, spend.change_puzzle_hash, change, vec![
                spend.change_puzzle_hash,
            ]);
        }
        proof {
            assert(created_outputs(conditions@) =~~= cat_created_spec(spend0, k2 as int));
            assert(cat_conditions_ok(spend0, k2 as int, conditions@));
            assert(spend0.cats@.take(k2 + 1 as int).drop_last() =~= spend0.cats@.take(k2 as int));
            assert(spend0.cats@.take(k2 + 1 as int).last() == spend0.cats@[k2 as int]);
            assert(!cats_fault(spend0.cats@.take(k2 + 1 as int)));
        }
        spends.push(PlannedSpend::Cat { asset_id: group.asset_id, coins: group.coins, conditions });
        k2 = k2 + 1;
    }
    assert(spend0.cats@.take(catn) =~= spend0.cats@);

    // The NFT legs: each offered NFT is locked into settlement with its
    // trade prices and whatever the linker assigned to its coin.
    let mut nfts_vec = spend.nfts;
    let mut m2: usize = 0;
    assert(nfts_vec@ =~= spend0.nfts@.skip(0));
    while nfts_vec.len() > 0
        invariant
            0 <= m2 <= spend0.nfts@.len(),
            nfts_vec@ == spend0.nfts@.skip(m2 as int),
            cursor == xnum + catn + m2,
            pc_ok(pc, idsv, spend0.assertions@, cursor as int),
            spends@.len() == rn + xnum + catn + m2,
            forall|t: int|
                0 <= t < rn ==> royalty_spend_ok(
                    #[trigger] spends@[t],
                    spend0.royalties@[t],
                    coin_id_view(spend0.p2_coins@[0]),
                ),
            has_xch ==> (spends@[rn] matches PlannedSpend::Xch { coins, conditions } && coins@
                == spend0.p2_coins@ && xch_conditions_ok(spend0, conditions@)),
            forall|t: int|
                0 <= t < catn ==> cat_spend_ok(spend0, t, #[trigger] spends@[rn + xnum + t]),
            forall|t: int|
                0 <= t < m2 ==> nft_spend_ok(spend0, t, #[trigger] spends@[rn + xnum + catn + t]),
        decreases nfts_vec@.len(),
    {
        let offered = nfts_vec.remove(0);
        proof {
            assert(spend0.nfts@.skip(m2 as int)[0] == spend0.nfts@[m2 as int]);
            assert(nfts_vec@ =~= spend0.nfts@.skip(m2 + 1 as int));
        }
        let conditions = pc.claim(cursor);
        cursor = cursor + 1;
        proof {
            lemma_assigned_views(idsv, spend0.assertions@, xnum + catn + m2);
        }
        spends.push(
            PlannedSpend::Nft { nft: offered.nft, trade_prices: offered.trade_prices, conditions },
        );
        m2 = m2 + 1;
    }
    assert(!cats_fault(spend0.cats@));
    proof {
        assert forall|i: int| rn + xnum <= i < rn + xnum + catn implies cat_spend_ok(
            spend0,
            i - rn - xnum,
            #[trigger] spends@[i],
        ) by {
            let t = i - rn - xnum;
            assert(spends@[rn + xnum + t] == spends@[i]);
            assert(cat_spend_ok(spend0, t, spends@[rn + xnum + t]));
        }
        assert forall|i: int| rn + xnum + catn <= i < spends@.len() implies nft_spend_ok(
            spend0,
            i - rn - xnum - catn,
            #[trigger] spends@[i],
        ) by {
            let t = i - rn - xnum - catn;
            assert(spends@[rn + xnum + catn + t] == spends@[i]);
            assert(nft_spend_ok(spend0, t, spends@[rn + xnum + catn + t]));
        }
    }
    Ok(spends)
}

} // verus!
