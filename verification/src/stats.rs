//! Position aggregator.
//!
//! One pass over all decoded positions, skipping closed ones
//! (`size_usd == 0`).  Each active position resolves its custody's mint,
//! the mint's current price and its collateral custody's borrow rate,
//! then contributes to running counts, cumulative values, fees and
//! unrealized PnL, and to the extremal (best / worst) open trades.
//!
//! The whole pass is specified by `scan_fold`, a fold over the position
//! sequence; the executable code returns exactly the fold's result.
//! All arithmetic is fixed point: USD amounts in micros, token amounts
//! in micro-units, rates in micro basis points, elapsed time in
//! micro-hours, leverage in `LEV_SCALE` units.  Divisions truncate on
//! magnitudes; signs are applied afterwards.

use vstd::prelude::*;
use crate::model::{Position, PositionEntry, CustodyQuote, MintPrice, RateEntry, Side, ScanError,
    position_in_range, SCALE, LEV_SCALE, BPS_DENOM, BORROW_FEE_DENOM, SECONDS_PER_HOUR,
    MAX_MONEY, MAX_BPS, MAX_TIME, MAX_RATE, MAX_ENTRIES};
use crate::lookup::{tab_lookup, quotes_view, prices_view, rates_view,
    find_custody, find_price, find_rate, clone_bytes};
use crate::rates::lemma_mul_le;

verus! {

/// Largest token amount an in-range position can imply, in micro-units.
pub const AMOUNT_MAX: u128 = 100_000_000_000_000_000_000;

/// Largest current value one in-range position can contribute, micros.
pub const VALUE_TERM_MAX: u128 = 10_000_000_000_000_000_000_000_000_000;

/// Largest magnitude one position can add to current collateral.
pub const COLL_TERM_MAX: u128 = 10_000_000_000_000_100_000_000_000_000;

/// Largest elapsed time factor, in micro-hours.
pub const INTERVAL_MAX: u128 = 277_777_777_777_778;

/// Largest fee one in-range position can contribute, micros.
pub const FEE_TERM_MAX: u128 = 3_000_000_000_000_000_000_000_000;

/// Largest cumulative value over a full scan, micros.
pub const CUM_VALUE_MAX: u128 = 10_000_000_000_000_000_000_000_000_000_000_000;

/// Largest cumulative collateral magnitude over a full scan, micros.
pub const CUM_COLL_MAX: i128 = 10_000_000_000_000_100_000_000_000_000_000_000;

/// Mathematical model of an extremal trade record.
pub ghost struct TradeModel {
    pub address: Seq<u8>,
    pub pnl: int,
    pub entry_price: int,
    pub side: Side,
    pub mint: Seq<u8>,
}

/// Mathematical model of the aggregate statistics.
pub ghost struct StatsModel {
    pub num_positions: int,
    pub num_longs: int,
    pub num_shorts: int,
    pub num_winning: int,
    pub cum_value_entry: int,
    pub cum_value_current: int,
    pub cum_long_value: int,
    pub cum_short_value: int,
    pub cum_collateral_entry: int,
    pub cum_collateral_current: int,
    pub cum_fees: int,
    pub cum_pnl: int,
    pub best_pnl: int,
    pub best: Option<TradeModel>,
    pub worst_pnl: int,
    pub worst: Option<TradeModel>,
}

/// Extremal trade as reported: address, PnL, entry price, side, mint.
pub struct TradeRecord {
    pub address: Vec<u8>,
    pub pnl: i128,
    pub entry_price: u64,
    pub side: Side,
    pub mint: Vec<u8>,
}

impl View for TradeRecord {
    type V = TradeModel;

    open spec fn view(&self) -> TradeModel {
        TradeModel {
            address: self.address@,
            pnl: self.pnl as int,
            entry_price: self.entry_price as int,
            side: self.side,
            mint: self.mint@,
        }
    }
}

pub open spec fn trade_opt_view(o: Option<TradeRecord>) -> Option<TradeModel> {
    match o {
        None => None,
        Some(t) => Some(t@),
    }
}

/// The scan's output: counts, cumulative totals and extremal trades.
/// All USD quantities are micros; `best`/`worst` hold the single most
/// and least profitable open trade, if any trade beat the zero mark.
pub struct AggregateStats {
    pub num_positions: u64,
    pub num_longs: u64,
    pub num_shorts: u64,
    pub num_winning: u64,
    pub cum_value_entry: u128,
    pub cum_value_current: u128,
    pub cum_long_value: u128,
    pub cum_short_value: u128,
    pub cum_collateral_entry: u128,
    pub cum_collateral_current: i128,
    pub cum_fees: u128,
    pub cum_pnl: i128,
    pub best_pnl: i128,
    pub best: Option<TradeRecord>,
    pub worst_pnl: i128,
    pub worst: Option<TradeRecord>,
}

impl View for AggregateStats {
    type V = StatsModel;

    open spec fn view(&self) -> StatsModel {
        StatsModel {
            num_positions: self.num_positions as int,
            num_longs: self.num_longs as int,
            num_shorts: self.num_shorts as int,
            num_winning: self.num_winning as int,
            cum_value_entry: self.cum_value_entry as int,
            cum_value_current: self.cum_value_current as int,
            cum_long_value: self.cum_long_value as int,
            cum_short_value: self.cum_short_value as int,
            cum_collateral_entry: self.cum_collateral_entry as int,
            cum_collateral_current: self.cum_collateral_current as int,
            cum_fees: self.cum_fees as int,
            cum_pnl: self.cum_pnl as int,
            best_pnl: self.best_pnl as int,
            best: trade_opt_view(self.best),
            worst_pnl: self.worst_pnl as int,
            worst: trade_opt_view(self.worst),
        }
    }
}

/// The empty aggregate: zero counts and totals, extremal PnL marks at
/// zero, no record holders.
pub open spec fn init_stats() -> StatsModel {
    StatsModel {
        num_positions: 0,
        num_longs: 0,
        num_shorts: 0,
        num_winning: 0,
        cum_value_entry: 0,
        cum_value_current: 0,
        cum_long_value: 0,
        cum_short_value: 0,
        cum_collateral_entry: 0,
        cum_collateral_current: 0,
        cum_fees: 0,
        cum_pnl: 0,
        best_pnl: 0,
        best: None,
        worst_pnl: 0,
        worst: None,
    }
}

/// Token amount implied by notional and entry price, in micro-units.
pub open spec fn amount_of(p: Position) -> int {
    p.size_usd * SCALE / p.price as int
}

/// Current value of the position, in micros.
pub open spec fn value_current(p: Position, price_cur: int) -> int {
    amount_of(p) * price_cur / SCALE as int
}

/// Fee charged on opening or closing the exposure, in micros.
pub open spec fn entry_fee(p: Position, bps: int) -> int {
    p.size_usd * bps / BPS_DENOM as int
}

/// Time since the position was last touched, in micro-hours.
pub open spec fn interval_micro_hours(p: Position, now: int) -> int {
    (now - p.update_time) * SCALE / SECONDS_PER_HOUR as int
}

/// Borrow fee accrued over the elapsed time, in micros.
pub open spec fn borrow_fee(p: Position, rate: int, now: int) -> int {
    rate * interval_micro_hours(p, now) / SCALE as int * p.size_usd / BORROW_FEE_DENOM as int
}

/// Magnitude of the value moved by the price change, in micros.
pub open spec fn move_magnitude(p: Position, price_cur: int) -> int {
    if price_cur >= p.price {
        amount_of(p) * (price_cur - p.price) / SCALE as int
    } else {
        amount_of(p) * (p.price - price_cur) / SCALE as int
    }
}

/// Collateral marked to the current price: entry collateral plus the
/// price move, signed by side.
pub open spec fn collateral_current(p: Position, price_cur: int) -> int {
    if (p.side == Side::Long) == (price_cur >= p.price) {
        p.collateral_usd + move_magnitude(p, price_cur)
    } else {
        p.collateral_usd - move_magnitude(p, price_cur)
    }
}

/// Unrealized PnL: current value minus entry value, signed by side.
pub open spec fn pnl_of(p: Position, price_cur: int) -> int {
    if p.side == Side::Long {
        value_current(p, price_cur) - p.size_usd
    } else {
        p.size_usd - value_current(p, price_cur)
    }
}

/// Fold one active position into the aggregate.  The extremal holders
/// move only on a strict improvement, so the first seen wins ties.
pub open spec fn apply_position(
    m: StatsModel,
    e: PositionEntry,
    mint: Seq<u8>,
    price_cur: int,
    rate: int,
    bps: int,
    now: int,
) -> StatsModel {
    let p = e.position;
    let vc = value_current(p, price_cur);
    let fee_term = 2 * entry_fee(p, bps) + borrow_fee(p, rate, now);
    let pnl = pnl_of(p, price_cur);
    let trade = TradeModel {
        address: e.address@,
        pnl: pnl,
        entry_price: p.price as int,
        side: p.side,
        mint: mint,
    };
    StatsModel {
        num_positions: m.num_positions + 1,
        num_longs: m.num_longs + if p.side == Side::Long { 1int } else { 0int },
        num_shorts: m.num_shorts + if p.side == Side::Short { 1int } else { 0int },
        num_winning: m.num_winning + if pnl > 0 { 1int } else { 0int },
        cum_value_entry: m.cum_value_entry + p.size_usd,
        cum_value_current: m.cum_value_current + vc,
        cum_long_value: m.cum_long_value + if p.side == Side::Long { vc } else { 0int },
        cum_short_value: m.cum_short_value + if p.side == Side::Short { vc } else { 0int },
        cum_collateral_entry: m.cum_collateral_entry + p.collateral_usd,
        cum_collateral_current: m.cum_collateral_current + collateral_current(p, price_cur),
        cum_fees: m.cum_fees + fee_term,
        cum_pnl: m.cum_pnl + pnl,
        best_pnl: if pnl > m.best_pnl { pnl } else { m.best_pnl },
        best: if pnl > m.best_pnl { Some(trade) } else { m.best },
        worst_pnl: if m.worst_pnl > pnl { pnl } else { m.worst_pnl },
        worst: if m.worst_pnl > pnl { Some(trade) } else { m.worst },
    }
}

/// One fold step: skip a closed position, else resolve the custody,
/// the price for its mint and the collateral custody's borrow rate,
/// reject a zero entry price, and fold the position in.
pub open spec fn scan_step(
    m: StatsModel,
    e: PositionEntry,
    quotes: Seq<CustodyQuote>,
    ptab: Seq<(Seq<u8>, u64)>,
    rtab: Seq<(Seq<u8>, u128)>,
    bps: int,
    now: int,
) -> Result<StatsModel, ScanError> {
    let p = e.position;
    if p.size_usd == 0 {
        Ok(m)
    } else {
        match tab_lookup(quotes_view(quotes), p.custody@) {
            None => Err(ScanError::MissingRelation),
            Some(c) => match tab_lookup(ptab, c.mint@) {
                None => Err(ScanError::UnknownMint),
                Some(price_cur) => match tab_lookup(rtab, p.collateral_custody@) {
                    None => Err(ScanError::MissingRelation),
                    Some(rate) => if p.price == 0 {
                        Err(ScanError::DivisionUndefined)
                    } else {
                        Ok(apply_position(m, e, c.mint@, price_cur as int, rate as int, bps, now))
                    },
                },
            },
        }
    }
}

/// Fold of the first `n` positions, stopping at the first error.
pub open spec fn scan_fold(
    positions: Seq<PositionEntry>,
    quotes: Seq<CustodyQuote>,
    ptab: Seq<(Seq<u8>, u64)>,
    rtab: Seq<(Seq<u8>, u128)>,
    bps: int,
    now: int,
    n: int,
) -> Result<StatsModel, ScanError>
    decreases n,
{
    if n <= 0 {
        Ok(init_stats())
    } else {
        match scan_fold(positions, quotes, ptab, rtab, bps, now, n - 1) {
            Err(e) => Err(e),
            Ok(m) => scan_step(m, positions[n - 1], quotes, ptab, rtab, bps, now),
        }
    }
}

/// Number of active positions among the first `n`.
pub open spec fn count_active(positions: Seq<PositionEntry>, n: int) -> int
    decreases n,
{
    if n <= 0 {
        0
    } else {
        count_active(positions, n - 1)
            + if positions[n - 1].position.size_usd != 0 { 1int } else { 0int }
    }
}

/// Once the fold fails, it stays failed with the same error.
pub proof fn lemma_fold_err_stable(
    positions: Seq<PositionEntry>,
    quotes: Seq<CustodyQuote>,
    ptab: Seq<(Seq<u8>, u64)>,
    rtab: Seq<(Seq<u8>, u128)>,
    bps: int,
    now: int,
    k: int,
    j: int,
)
    requires
        0 <= k <= j,
        scan_fold(positions, quotes, ptab, rtab, bps, now, k) is Err,
    ensures
        scan_fold(positions, quotes, ptab, rtab, bps, now, j)
            == scan_fold(positions, quotes, ptab, rtab, bps, now, k),
    decreases j,
{
    if j > k {
        lemma_fold_err_stable(positions, quotes, ptab, rtab, bps, now, k, j - 1);
    }
}

/// Aggregate identities: longs plus shorts make up all active
/// positions, and long value plus short value make up the whole
/// current position value; closed positions count nowhere.
pub proof fn lemma_fold_identities(
    positions: Seq<PositionEntry>,
    quotes: Seq<CustodyQuote>,
    ptab: Seq<(Seq<u8>, u64)>,
    rtab: Seq<(Seq<u8>, u128)>,
    bps: int,
    now: int,
    n: int,
)
    requires
        0 <= n,
    ensures
        scan_fold(positions, quotes, ptab, rtab, bps, now, n) matches Ok(m) ==> {
            &&& m.cum_long_value + m.cum_short_value == m.cum_value_current
            &&& m.num_longs + m.num_shorts == m.num_positions
            &&& m.num_positions == count_active(positions, n)
        },
    decreases n,
{
    if n > 0 {
        lemma_fold_identities(positions, quotes, ptab, rtab, bps, now, n - 1);
    }
}

/// A ratio of cumulative values, in `LEV_SCALE` units; undefined on a
/// zero denominator.  Truncation acts on the magnitude; the sign of
/// the denominator carries over.
pub open spec fn leverage_spec(value: int, coll: int) -> Option<int> {
    if coll == 0 {
        None
    } else if coll > 0 {
        Some(value * LEV_SCALE / coll)
    } else {
        Some(0 - value * LEV_SCALE / (0 - coll))
    }
}

/// A scan without a single active position folds to the empty
/// aggregate, whose leverage ratios are undefined rather than a crash.
pub proof fn lemma_no_active_positions(
    positions: Seq<PositionEntry>,
    quotes: Seq<CustodyQuote>,
    ptab: Seq<(Seq<u8>, u64)>,
    rtab: Seq<(Seq<u8>, u128)>,
    bps: int,
    now: int,
    n: int,
)
    requires
        0 <= n <= positions.len(),
        forall|i: int| 0 <= i < n ==> (#[trigger] positions[i]).position.size_usd == 0,
    ensures
        scan_fold(positions, quotes, ptab, rtab, bps, now, n) == Ok::<StatsModel, ScanError>(init_stats()),
        leverage_spec(init_stats().cum_value_entry, init_stats().cum_collateral_entry) is None,
        leverage_spec(init_stats().cum_value_current, init_stats().cum_collateral_current) is None,
    decreases n,
{
    if n > 0 {
        lemma_no_active_positions(positions, quotes, ptab, rtab, bps, now, n - 1);
    }
}

/// Average leverage: cumulative position value over cumulative
/// collateral, in `LEV_SCALE` units; `None` exactly on a zero
/// denominator (no active positions, or exactly cancelled collateral).
pub fn leverage_ratio(value: u128, coll: i128) -> (r: Option<i128>)
    requires
        value <= CUM_VALUE_MAX,
        -CUM_COLL_MAX <= coll <= CUM_COLL_MAX,
    ensures
        match r {
            None => leverage_spec(value as int, coll as int) is None && coll == 0,
            Some(l) => leverage_spec(value as int, coll as int) == Some(l as int),
        },
{
    if coll == 0 {
        return None;
    }
    let num: u128 = value * (LEV_SCALE as u128);
    if coll > 0 {
        let q: u128 = num / (coll as u128);
        proof {
            vstd::arithmetic::div_mod::lemma_div_is_ordered_by_denominator(
                num as int, 1, coll as int);
        }
        Some(q as i128)
    } else {
        let mag: u128 = (-coll) as u128;
        let q: u128 = num / mag;
        proof {
            vstd::arithmetic::div_mod::lemma_div_is_ordered_by_denominator(
                num as int, 1, mag as int);
        }
        Some(-(q as i128))
    }
}

/// Average leverage at entry: cumulative entry value over cumulative
/// entry collateral, `None` exactly when no collateral was counted.
pub fn avg_leverage_at_entry(s: &AggregateStats) -> (r: Option<i128>)
    requires
        s.cum_value_entry <= CUM_VALUE_MAX,
        s.cum_collateral_entry <= CUM_VALUE_MAX,
    ensures
        match r {
            None => s.cum_collateral_entry == 0,
            Some(l) => leverage_spec(s.cum_value_entry as int, s.cum_collateral_entry as int)
                == Some(l as int),
        },
{
    leverage_ratio(s.cum_value_entry, s.cum_collateral_entry as i128)
}

/// Effective average leverage: cumulative current value over cumulative
/// current collateral, `None` exactly on zero current collateral.
pub fn avg_effective_leverage(s: &AggregateStats) -> (r: Option<i128>)
    requires
        s.cum_value_current <= CUM_VALUE_MAX,
        -CUM_COLL_MAX <= s.cum_collateral_current <= CUM_COLL_MAX,
    ensures
        match r {
            None => s.cum_collateral_current == 0,
            Some(l) => leverage_spec(s.cum_value_current as int,
                s.cum_collateral_current as int) == Some(l as int),
        },
{
    leverage_ratio(s.cum_value_current, s.cum_collateral_current)
}

/// Fold every position into the aggregate, exactly as `scan_fold`
/// says: closed positions are skipped, a missing custody or rate is a
/// fatal `MissingRelation`, a missing price a fatal `UnknownMint`, a
/// zero entry price a fatal `DivisionUndefined`.
pub fn aggregate_positions(
    positions: &Vec<PositionEntry>,
    quotes: &Vec<CustodyQuote>,
    prices: &Vec<MintPrice>,
    rate_entries: &Vec<RateEntry>,
    increase_position_bps: u64,
    now: u64,
) -> (r: Result<AggregateStats, ScanError>)
    requires
        positions@.len() <= MAX_ENTRIES,
        forall|i: int| 0 <= i < positions@.len() ==> position_in_range(
            (#[trigger] positions@[i]).position) && positions@[i].position.update_time <= now,
        forall|i: int| 0 <= i < prices@.len() ==> (#[trigger] prices@[i]).price <= MAX_MONEY,
        forall|i: int| 0 <= i < rate_entries@.len() ==> (#[trigger] rate_entries@[i]).rate
            <= MAX_RATE,
        increase_position_bps <= MAX_BPS,
        now <= MAX_TIME,
    ensures
        match r {
            Ok(s) => {
                &&& scan_fold(positions@, quotes@, prices_view(prices@),
                    rates_view(rate_entries@), increase_position_bps as int, now as int,
                    positions@.len() as int) == Ok::<StatsModel, ScanError>(s@)
                &&& s.cum_value_entry <= CUM_VALUE_MAX
                &&& s.cum_value_current <= CUM_VALUE_MAX
                &&& s.cum_collateral_entry <= CUM_VALUE_MAX
                &&& -CUM_COLL_MAX <= s.cum_collateral_current <= CUM_COLL_MAX
                &&& s.cum_long_value + s.cum_short_value == s.cum_value_current
                &&& s.num_longs + s.num_shorts == s.num_positions
                &&& s.num_positions == count_active(positions@, positions@.len() as int)
            },
            Err(e) => scan_fold(positions@, quotes@, prices_view(prices@),
                rates_view(rate_entries@), increase_position_bps as int, now as int,
                positions@.len() as int) == Err::<StatsModel, ScanError>(e),
        },
{
    let ghost gpos = positions@;
    let ghost gq = quotes@;
    let ghost gp = prices_view(prices@);
    let ghost gr = rates_view(rate_entries@);
    let ghost gbps = increase_position_bps as int;
    let ghost gnow = now as int;
    let n: usize = positions.len();
    let mut s = AggregateStats {
        num_positions: 0,
        num_longs: 0,
        num_shorts: 0,
        num_winning: 0,
        cum_value_entry: 0,
        cum_value_current: 0,
        cum_long_value: 0,
        cum_short_value: 0,
        cum_collateral_entry: 0,
        cum_collateral_current: 0,
        cum_fees: 0,
        cum_pnl: 0,
        best_pnl: 0,
        best: None,
        worst_pnl: 0,
        worst: None,
    };
    let mut i: usize = 0;
    while i < n
        invariant
            i <= n,
            n == gpos.len(),
            n <= MAX_ENTRIES,
            gpos == positions@,
            gq == quotes@,
            gp == prices_view(prices@),
            gr == rates_view(rate_entries@),
            gbps == increase_position_bps as int,
            gnow == now as int,
            forall|k: int| 0 <= k < gpos.len() ==> position_in_range(
                (#[trigger] gpos[k]).position) && gpos[k].position.update_time <= now,
            forall|k: int| 0 <= k < prices@.len() ==> (#[trigger] prices@[k]).price <= MAX_MONEY,
            forall|k: int| 0 <= k < rate_entries@.len() ==> (#[trigger] rate_entries@[k]).rate
                <= MAX_RATE,
            increase_position_bps <= MAX_BPS,
            now <= MAX_TIME,
            scan_fold(gpos, gq, gp, gr, gbps, gnow, i as int)
                == Ok::<StatsModel, ScanError>(s@),
            s.num_positions <= i,
            s.num_longs <= i,
            s.num_shorts <= i,
            s.num_winning <= i,
            s.cum_value_entry as int <= (i as int) * (MAX_MONEY as int),
            s.cum_value_current as int <= (i as int) * (VALUE_TERM_MAX as int),
            s.cum_long_value as int <= (i as int) * (VALUE_TERM_MAX as int),
            s.cum_short_value as int <= (i as int) * (VALUE_TERM_MAX as int),
            s.cum_collateral_entry as int <= (i as int) * (MAX_MONEY as int),
            -((i as int) * (COLL_TERM_MAX as int)) <= s.cum_collateral_current as int
                <= (i as int) * (COLL_TERM_MAX as int),
            s.cum_fees as int <= (i as int) * (FEE_TERM_MAX as int),
            -((i as int) * (VALUE_TERM_MAX as int)) <= s.cum_pnl as int
                <= (i as int) * (VALUE_TERM_MAX as int),
            0 <= s.best_pnl as int <= VALUE_TERM_MAX as int,
            -(VALUE_TERM_MAX as int) <= s.worst_pnl as int <= 0,
        decreases n - i,
    {
        let p_size = positions[i].position.size_usd;
        if p_size != 0 {
            let ci = match find_custody(quotes, &positions[i].position.custody) {
                Some(ci) => ci,
                None => {
                    proof {
                        lemma_fold_err_stable(gpos, gq, gp, gr, gbps, gnow,
                            i as int + 1, n as int);
                    }
                    return Err(ScanError::MissingRelation);
                },
            };
            let pi = match find_price(prices, &quotes[ci].custody.mint) {
                Some(pi) => pi,
                None => {
                    proof {
                        lemma_fold_err_stable(gpos, gq, gp, gr, gbps, gnow,
                            i as int + 1, n as int);
                    }
                    return Err(ScanError::UnknownMint);
                },
            };
            let price_cur = prices[pi].price;
            let ri = match find_rate(rate_entries, &positions[i].position.collateral_custody) {
                Some(ri) => ri,
                None => {
                    proof {
                        lemma_fold_err_stable(gpos, gq, gp, gr, gbps, gnow,
                            i as int + 1, n as int);
                    }
                    return Err(ScanError::MissingRelation);
                },
            };
            let rate = rate_entries[ri].rate;
            let entry_price = positions[i].position.price;
            if entry_price == 0 {
                proof {
                    lemma_fold_err_stable(gpos, gq, gp, gr, gbps, gnow, i as int + 1, n as int);
                }
                return Err(ScanError::DivisionUndefined);
            }
            let ghost p = gpos[i as int].position;
            let size = positions[i].position.size_usd;
            let collateral = positions[i].position.collateral_usd;
            let update_time = positions[i].position.update_time;
            let is_long = positions[i].position.side == Side::Long;

            // Token amount, current value, entry fee.
            proof {
                lemma_mul_le(size as int, MAX_MONEY as int, SCALE as int, SCALE as int);
            }
            let amount: u128 = (size as u128) * (SCALE as u128) / (entry_price as u128);
            proof {
                vstd::arithmetic::div_mod::lemma_div_is_ordered_by_denominator(
                    (size as u128 * SCALE as u128) as int, 1, entry_price as int);
                assert(amount <= AMOUNT_MAX);
                lemma_mul_le(amount as int, AMOUNT_MAX as int, price_cur as int,
                    MAX_MONEY as int);
                vstd::arithmetic::div_mod::lemma_div_is_ordered(
                    (amount * price_cur as u128) as int,
                    AMOUNT_MAX as int * MAX_MONEY as int, SCALE as int);
            }
            let vc: u128 = amount * (price_cur as u128) / (SCALE as u128);
            proof {
                assert(vc <= VALUE_TERM_MAX);
                lemma_mul_le(size as int, MAX_MONEY as int, increase_position_bps as int,
                    MAX_BPS as int);
                vstd::arithmetic::div_mod::lemma_div_is_ordered(
                    (size as u128 * increase_position_bps as u128) as int,
                    MAX_MONEY as int * MAX_BPS as int, BPS_DENOM as int);
            }
            let efee: u128 = (size as u128) * (increase_position_bps as u128)
                / (BPS_DENOM as u128);

            // Borrow fee over elapsed micro-hours.
            let dt: u64 = now - update_time;
            let interval: u128 = (dt as u128) * (SCALE as u128) / (SECONDS_PER_HOUR as u128);
            proof {
                vstd::arithmetic::div_mod::lemma_div_is_ordered(
                    (dt as u128 * SCALE as u128) as int,
                    MAX_TIME as int * SCALE as int, SECONDS_PER_HOUR as int);
                assert(interval <= INTERVAL_MAX);
                lemma_mul_le(rate as int, MAX_RATE as int, interval as int, INTERVAL_MAX as int);
                vstd::arithmetic::div_mod::lemma_div_is_ordered(
                    (rate * interval) as int, MAX_RATE as int * INTERVAL_MAX as int,
                    SCALE as int);
            }
            let step: u128 = rate * interval / (SCALE as u128);
            proof {
                lemma_mul_le(step as int, MAX_RATE as int * INTERVAL_MAX as int / SCALE as int,
                    size as int, MAX_MONEY as int);
                vstd::arithmetic::div_mod::lemma_div_is_ordered(
                    (step * size as u128) as int,
                    MAX_RATE as int * INTERVAL_MAX as int / SCALE as int * MAX_MONEY as int,
                    BORROW_FEE_DENOM as int);
            }
            let bfee: u128 = step * (size as u128) / (BORROW_FEE_DENOM as u128);
            let fee_term: u128 = 2 * efee + bfee;
            proof {
                assert(fee_term <= FEE_TERM_MAX);
            }

            // Collateral marked to the current price.
            let diff: u64 = if price_cur >= entry_price {
                price_cur - entry_price
            } else {
                entry_price - price_cur
            };
            proof {
                lemma_mul_le(amount as int, AMOUNT_MAX as int, diff as int, MAX_MONEY as int);
                vstd::arithmetic::div_mod::lemma_div_is_ordered(
                    (amount * diff as u128) as int, AMOUNT_MAX as int * MAX_MONEY as int,
                    SCALE as int);
            }
            let move_m: u128 = amount * (diff as u128) / (SCALE as u128);
            proof {
                assert(move_m <= VALUE_TERM_MAX);
            }
            let gain = is_long == (price_cur >= entry_price);
            let coll_cur: i128 = if gain {
                (collateral as i128) + (move_m as i128)
            } else {
                (collateral as i128) - (move_m as i128)
            };

            // Unrealized PnL, signed by side.
            let pnl: i128 = if is_long {
                (vc as i128) - (size as i128)
            } else {
                (size as i128) - (vc as i128)
            };

            proof {
                assert(amount as int == amount_of(p));
                assert(vc as int == value_current(p, price_cur as int));
                assert(efee as int == entry_fee(p, increase_position_bps as int));
                assert(interval as int == interval_micro_hours(p, now as int));
                assert(bfee as int == borrow_fee(p, rate as int, now as int));
                assert(move_m as int == move_magnitude(p, price_cur as int));
                assert(coll_cur as int == collateral_current(p, price_cur as int));
                assert(pnl as int == pnl_of(p, price_cur as int));
            }

            s.num_positions = s.num_positions + 1;
            if is_long {
                s.num_longs = s.num_longs + 1;
                s.cum_long_value = s.cum_long_value + vc;
            } else {
                s.num_shorts = s.num_shorts + 1;
                s.cum_short_value = s.cum_short_value + vc;
            }
            if pnl > 0 {
                s.num_winning = s.num_winning + 1;
            }
            s.cum_value_entry = s.cum_value_entry + (size as u128);
            s.cum_value_current = s.cum_value_current + vc;
            s.cum_collateral_entry = s.cum_collateral_entry + (collateral as u128);
            s.cum_collateral_current = s.cum_collateral_current + coll_cur;
            s.cum_fees = s.cum_fees + fee_term;
            s.cum_pnl = s.cum_pnl + pnl;
            if pnl > s.best_pnl {
                s.best_pnl = pnl;
                s.best = Some(TradeRecord {
                    address: clone_bytes(&positions[i].address),
                    pnl,
                    entry_price,
                    side: positions[i].position.side,
                    mint: clone_bytes(&quotes[ci].custody.mint),
                });
            }
            if s.worst_pnl > pnl {
                s.worst_pnl = pnl;
                s.worst = Some(TradeRecord {
                    address: clone_bytes(&positions[i].address),
                    pnl,
                    entry_price,
                    side: positions[i].position.side,
                    mint: clone_bytes(&quotes[ci].custody.mint),
                });
            }
        }
        i = i + 1;
        proof {
            assert(scan_fold(gpos, gq, gp, gr, gbps, gnow, i as int)
                == Ok::<StatsModel, ScanError>(s@));
        }
    }
    proof {
        lemma_fold_identities(gpos, gq, gp, gr, gbps, gnow, n as int);
    }
    Ok(s)
}

} // verus!
