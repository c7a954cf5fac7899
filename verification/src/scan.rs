//! One full scan: derive the borrow-rate table and the volatile price
//! table from the custody set, then fold every position into the
//! aggregate.  Tables are fully built before any position is read.

use vstd::prelude::*;
use crate::model::{Pool, CustodyQuote, PositionEntry, ScanError, pool_in_range,
    quote_in_range, position_in_range, MAX_MONEY, MAX_TIME, MAX_ENTRIES};
use crate::lookup::{prices_view, rates_view};
use crate::rates::{build_borrow_rates, volatile_mint_prices, spec_volatile_prices,
    spec_rate_tab, rates_bad};
use crate::stats::{aggregate_positions, scan_fold, AggregateStats, StatsModel,
    CUM_VALUE_MAX, CUM_COLL_MAX};

verus! {

/// The result of folding all positions against the derived tables.
pub open spec fn spec_scan(
    positions: Seq<PositionEntry>,
    quotes: Seq<CustodyQuote>,
    bps: int,
    now: int,
) -> Result<StatsModel, ScanError> {
    scan_fold(positions, quotes, spec_volatile_prices(quotes, quotes.len() as int),
        spec_rate_tab(quotes), bps, now, positions.len() as int)
}

proof fn lemma_volatile_prices_bound(s: Seq<CustodyQuote>, n: int)
    requires
        0 <= n <= s.len(),
        forall|i: int| 0 <= i < s.len() ==> quote_in_range(#[trigger] s[i]),
    ensures
        forall|k: int| 0 <= k < spec_volatile_prices(s, n).len()
            ==> (#[trigger] spec_volatile_prices(s, n)[k]).1 <= MAX_MONEY,
    decreases n,
{
    if n > 0 {
        lemma_volatile_prices_bound(s, n - 1);
        let prev = spec_volatile_prices(s, n - 1);
        let cur = spec_volatile_prices(s, n);
        assert forall|k: int| 0 <= k < cur.len() implies (#[trigger] cur[k]).1 <= MAX_MONEY by {
            if k < prev.len() {
                assert(cur[k] == prev[k]);
            } else {
                assert(!crate::price::is_stable(s[n - 1].price as int));
                assert(cur[k] == (s[n - 1].custody.mint@, s[n - 1].price));
            }
        }
    }
}

/// Run one scan: rates first, then the position fold.  Fails with
/// `InsufficientLiquidityData` exactly when rate derivation fails;
/// otherwise returns exactly what `spec_scan` folds to.
pub fn scan(
    pool: &Pool,
    quotes: &Vec<CustodyQuote>,
    positions: &Vec<PositionEntry>,
    now: u64,
) -> (r: Result<AggregateStats, ScanError>)
    requires
        pool_in_range(*pool),
        quotes@.len() <= MAX_ENTRIES,
        positions@.len() <= MAX_ENTRIES,
        forall|i: int| 0 <= i < quotes@.len() ==> quote_in_range(#[trigger] quotes@[i]),
        forall|i: int| 0 <= i < positions@.len() ==> position_in_range(
            (#[trigger] positions@[i]).position) && positions@[i].position.update_time <= now,
        now <= MAX_TIME,
    ensures
        rates_bad(quotes@) ==> r == Err::<AggregateStats, ScanError>(
            ScanError::InsufficientLiquidityData),
        !rates_bad(quotes@) ==> match r {
            Ok(s) => {
                &&& spec_scan(positions@, quotes@, pool.increase_position_bps as int,
                    now as int) == Ok::<StatsModel, ScanError>(s@)
                &&& s.cum_value_entry <= CUM_VALUE_MAX
                &&& s.cum_value_current <= CUM_VALUE_MAX
                &&& s.cum_collateral_entry <= CUM_VALUE_MAX
                &&& -CUM_COLL_MAX <= s.cum_collateral_current <= CUM_COLL_MAX
            },
            Err(e) => spec_scan(positions@, quotes@, pool.increase_position_bps as int,
                now as int) == Err::<StatsModel, ScanError>(e),
        },
{
    let rate_entries = match build_borrow_rates(quotes) {
        Ok(t) => t,
        Err(e) => {
            return Err(e);
        },
    };
    let prices = volatile_mint_prices(quotes);
    proof {
        lemma_volatile_prices_bound(quotes@, quotes@.len() as int);
        assert(forall|k: int| 0 <= k < prices@.len() ==> (#[trigger] prices@[k]).price
            == prices_view(prices@)[k].1);
        assert(rates_view(rate_entries@) == spec_rate_tab(quotes@));
    }
    aggregate_positions(positions, quotes, &prices, &rate_entries,
        pool.increase_position_bps, now)
}

} // verus!
