//! Exact-or-greater coin selection.
//!
//! The selector takes the wallet's unspent coins in its preferred order and
//! returns a prefix whose total meets the requested amount, or
//! `InsufficientFunds` when the whole set cannot. A successful selection
//! never under-commits: downstream conservation arithmetic relies on the
//! selected total meeting the request.

use vstd::prelude::*;

use crate::types::{sum_cat_amounts, sum_coin_amounts, CatCoin, Coin, WalletError};

verus! {

/// Select unspent coins, in order, until the requested amount is met.
///
/// Returns the shortest prefix of `available` whose total is at least
/// `amount` (without the last selected coin the total still falls short),
/// and fails with `InsufficientFunds` exactly when even the whole set
/// falls short. A request of zero selects no coins.
pub fn select_coins(available: &Vec<Coin>, amount: u64) -> (r: Result<Vec<Coin>, WalletError>)
    ensures
        match r {
            Ok(selected) => sum_coin_amounts(selected@) >= amount && (exists|n: int|
                0 <= n <= available@.len() && selected@ == available@.take(n)) && (selected@.len()
                > 0 ==> sum_coin_amounts(selected@.drop_last()) < amount),
            Err(e) => e == WalletError::InsufficientFunds && sum_coin_amounts(available@)
                < amount,
        },
{
    let mut selected: Vec<Coin> = Vec::new();
    let mut total: u128 = 0;
    let mut i: usize = 0;
    assert(selected@ =~= available@.take(0));
    if amount == 0 {
        return Ok(selected);
    }
    while i < available.len()
        invariant
            i <= available.len(),
            selected@ == available@.take(i as int),
            total == sum_coin_amounts(selected@),
            total < amount,
        decreases available.len() - i,
    {
        let coin = available[i];
        proof {
            assert(available@.take(i + 1 as int).drop_last() =~= available@.take(i as int));
            assert(available@.take(i + 1 as int).last() == available@[i as int]);
        }
        let ghost before = selected@;
        selected.push(coin);
        assert(selected@ =~= available@.take(i + 1 as int));
        total = total + coin.amount as u128;
        i = i + 1;
        if total >= amount as u128 {
            assert(selected@ == available@.take(i as int));
            assert(selected@.drop_last() =~= before);
            return Ok(selected);
        }
    }
    assert(available@.take(available@.len() as int) =~= available@);
    Err(WalletError::InsufficientFunds)
}

/// Select CAT coins of one asset, in order, until the requested amount is
/// met: the CAT counterpart of `select_coins`, with the same shortest
/// sufficient prefix and the same failure condition.
pub fn select_cat_coins(available: &Vec<CatCoin>, amount: u64) -> (r: Result<
    Vec<CatCoin>,
    WalletError,
>)
    ensures
        match r {
            Ok(selected) => sum_cat_amounts(selected@) >= amount && (exists|n: int|
                0 <= n <= available@.len() && selected@ == available@.take(n)) && (selected@.len()
                > 0 ==> sum_cat_amounts(selected@.drop_last()) < amount),
            Err(e) => e == WalletError::InsufficientFunds && sum_cat_amounts(available@) < amount,
        },
{
    let mut selected: Vec<CatCoin> = Vec::new();
    let mut total: u128 = 0;
    let mut i: usize = 0;
    assert(selected@ =~= available@.take(0));
    if amount == 0 {
        return Ok(selected);
    }
    while i < available.len()
        invariant
            i <= available.len(),
            selected@ == available@.take(i as int),
            total == sum_cat_amounts(selected@),
            total < amount,
        decreases available.len() - i,
    {
        let cat = available[i];
        proof {
            assert(available@.take(i + 1 as int).drop_last() =~= available@.take(i as int));
            assert(available@.take(i + 1 as int).last() == available@[i as int]);
        }
        let ghost before = selected@;
        let amount_selected = cat.coin.amount;
        selected.push(cat);
        assert(selected@ =~= available@.take(i + 1 as int));
        total = total + amount_selected as u128;
        i = i + 1;
        if total >= amount as u128 {
            assert(selected@ == available@.take(i as int));
            assert(selected@.drop_last() =~= before);
            return Ok(selected);
        }
    }
    assert(available@.take(available@.len() as int) =~= available@);
    Err(WalletError::InsufficientFunds)
}

} // verus!
