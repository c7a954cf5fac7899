//! Borrow-rate model.
//!
//! Each custody receives one hourly borrow rate, in micro basis points,
//! derived before any position is processed.  A volatile custody is
//! rated from its own utilization: `locked / owned * hourly_funding_bps`.
//! All stable custodies are rated together: the single rate
//! `sum(locked) / sum(owned)` over every stable custody, so all
//! stablecoin borrow costs move as one.  (The stable ratio is applied
//! as basis points without a funding-rate factor, mirroring the
//! asymmetry of the derivation this model reproduces.)
//!
//! Unusable liquidity data is fatal: a volatile custody with nothing
//! owned, a stable group with nothing owned, or a derived rate beyond
//! `MAX_RATE` yields `InsufficientLiquidityData`.

use vstd::prelude::*;
use crate::model::{CustodyQuote, MintPrice, RateEntry, ScanError, quote_in_range,
    SCALE, MAX_MONEY, MAX_BPS, MAX_RATE, MAX_ENTRIES};
use crate::price::is_stable;
use crate::lookup::{prices_view, rates_view, clone_bytes};

verus! {

/// Sum of `owned` over the stable custodies among the first `n` quotes.
pub open spec fn stable_owned(s: Seq<CustodyQuote>, n: int) -> int
    decreases n,
{
    if n <= 0 {
        0
    } else {
        stable_owned(s, n - 1)
            + if is_stable(s[n - 1].price as int) { s[n - 1].custody.owned as int } else { 0 }
    }
}

/// Sum of `locked` over the stable custodies among the first `n` quotes.
pub open spec fn stable_locked(s: Seq<CustodyQuote>, n: int) -> int
    decreases n,
{
    if n <= 0 {
        0
    } else {
        stable_locked(s, n - 1)
            + if is_stable(s[n - 1].price as int) { s[n - 1].custody.locked as int } else { 0 }
    }
}

/// Is the quote at `i` stable?
pub open spec fn stable_at(s: Seq<CustodyQuote>, i: int) -> bool {
    is_stable(s[i].price as int)
}

/// Does any of the first `n` quotes hold a stable custody?
pub open spec fn has_stable(s: Seq<CustodyQuote>, n: int) -> bool {
    exists|i: int| 0 <= i < n && #[trigger] stable_at(s, i)
}

/// Utilization-based rate of a volatile custody, in micro basis points.
pub open spec fn volatile_rate(q: CustodyQuote) -> int {
    q.custody.locked * q.custody.hourly_funding_bps * SCALE / q.custody.owned as int
}

/// Pooled rate shared by every stable custody, in micro basis points.
pub open spec fn stable_rate(s: Seq<CustodyQuote>, n: int) -> int {
    stable_locked(s, n) * SCALE / stable_owned(s, n)
}

/// Is the volatile custody at `i` unusable for rate derivation?
pub open spec fn bad_volatile_at(s: Seq<CustodyQuote>, i: int) -> bool {
    !stable_at(s, i) && (s[i].custody.owned == 0 || volatile_rate(s[i]) > MAX_RATE)
}

/// Is any volatile custody among the first `n` unusable?
pub open spec fn bad_volatile(s: Seq<CustodyQuote>, n: int) -> bool {
    exists|i: int| 0 <= i < n && #[trigger] bad_volatile_at(s, i)
}

/// Is the stable group unusable?
pub open spec fn bad_stable(s: Seq<CustodyQuote>, n: int) -> bool {
    has_stable(s, n) && (stable_owned(s, n) == 0 || stable_rate(s, n) > MAX_RATE)
}

/// Does rate derivation fail for this custody set?
pub open spec fn rates_bad(s: Seq<CustodyQuote>) -> bool {
    bad_volatile(s, s.len() as int) || bad_stable(s, s.len() as int)
}

/// The derived rate of one quote within its custody set.
pub open spec fn spec_rate(s: Seq<CustodyQuote>, q: CustodyQuote) -> int {
    if is_stable(q.price as int) {
        stable_rate(s, s.len() as int)
    } else {
        volatile_rate(q)
    }
}

/// The full rate table as an association list.
pub open spec fn spec_rate_tab(s: Seq<CustodyQuote>) -> Seq<(Seq<u8>, u128)> {
    Seq::new(s.len(), |i: int| (s[i].address@, spec_rate(s, s[i]) as u128))
}

/// The resolved prices of the volatile custodies among the first `n`
/// quotes, keyed by mint, in order of appearance.
pub open spec fn spec_volatile_prices(s: Seq<CustodyQuote>, n: int) -> Seq<(Seq<u8>, u64)>
    decreases n,
{
    if n <= 0 {
        Seq::empty()
    } else {
        spec_volatile_prices(s, n - 1)
            + if !is_stable(s[n - 1].price as int) {
                seq![(s[n - 1].custody.mint@, s[n - 1].price)]
            } else {
                Seq::empty()
            }
    }
}

pub proof fn lemma_mul_le(a: int, ab: int, b: int, bb: int)
    by (nonlinear_arith)
    requires
        0 <= a <= ab,
        0 <= b <= bb,
    ensures
        a * b <= ab * bb,
        0 <= a * b,
{
}

/// Stable uniformity: any two stable custodies of one scan derive the
/// identical borrow rate.
pub proof fn lemma_stable_rates_uniform(s: Seq<CustodyQuote>, i: int, j: int)
    requires
        0 <= i < s.len(),
        0 <= j < s.len(),
        is_stable(s[i].price as int),
        is_stable(s[j].price as int),
    ensures
        spec_rate(s, s[i]) == spec_rate(s, s[j]),
        spec_rate_tab(s)[i].1 == spec_rate_tab(s)[j].1,
{
}

/// Collect the resolved price of every volatile custody, keyed by mint.
/// Stable custodies are deliberately absent: a position held against a
/// stable custody finds no price and fails with `UnknownMint`.
pub fn volatile_mint_prices(quotes: &Vec<CustodyQuote>) -> (r: Vec<MintPrice>)
    ensures
        prices_view(r@) == spec_volatile_prices(quotes@, quotes@.len() as int),
{
    let n: usize = quotes.len();
    let mut r: Vec<MintPrice> = Vec::new();
    let mut i: usize = 0;
    while i < n
        invariant
            i <= n,
            n == quotes@.len(),
            prices_view(r@) =~= spec_volatile_prices(quotes@, i as int),
        decreases n - i,
    {
        let stable = crate::price::classify(quotes[i].price) == crate::price::AssetClass::Stable;
        if !stable {
            let entry = MintPrice {
                mint: clone_bytes(&quotes[i].custody.mint),
                price: quotes[i].price,
            };
            r.push(entry);
        }
        i = i + 1;
        proof {
            assert(prices_view(r@) =~= spec_volatile_prices(quotes@, i as int));
        }
    }
    proof {
        assert(prices_view(r@) =~= spec_volatile_prices(quotes@, n as int));
    }
    r
}

/// Derive the borrow-rate table for the whole custody set, or fail if
/// any custody's liquidity data is unusable.  The table covers every
/// custody, in order, keyed by address.
pub fn build_borrow_rates(quotes: &Vec<CustodyQuote>) -> (r: Result<Vec<RateEntry>, ScanError>)
    requires
        quotes@.len() <= MAX_ENTRIES,
        forall|i: int| 0 <= i < quotes@.len() ==> quote_in_range(#[trigger] quotes@[i]),
    ensures
        match r {
            Ok(t) => {
                &&& !rates_bad(quotes@)
                &&& t@.len() == quotes@.len()
                &&& rates_view(t@) == spec_rate_tab(quotes@)
                &&& forall|i: int| 0 <= i < t@.len() ==> (#[trigger] t@[i]).rate <= MAX_RATE
                    && t@[i].address@ == quotes@[i].address@
                    && t@[i].rate as int == spec_rate(quotes@, quotes@[i])
            },
            Err(e) => e == ScanError::InsufficientLiquidityData && rates_bad(quotes@),
        },
{
    let n: usize = quotes.len();
    let mut owned_sum: u128 = 0;
    let mut locked_sum: u128 = 0;
    let mut any_stable: bool = false;
    let mut i: usize = 0;
    while i < n
        invariant
            i <= n,
            n == quotes@.len(),
            n <= MAX_ENTRIES,
            forall|k: int| 0 <= k < quotes@.len() ==> quote_in_range(#[trigger] quotes@[k]),
            owned_sum as int == stable_owned(quotes@, i as int),
            locked_sum as int == stable_locked(quotes@, i as int),
            owned_sum as int <= (i as int) * MAX_MONEY,
            locked_sum as int <= (i as int) * MAX_MONEY,
            any_stable == has_stable(quotes@, i as int),
            !bad_volatile(quotes@, i as int),
        decreases n - i,
    {
        let q = &quotes[i];
        let stable = crate::price::classify(q.price) == crate::price::AssetClass::Stable;
        if stable {
            owned_sum = owned_sum + (q.custody.owned as u128);
            locked_sum = locked_sum + (q.custody.locked as u128);
            any_stable = true;
            proof {
                assert(stable_at(quotes@, i as int));
                assert(!bad_volatile_at(quotes@, i as int));
            }
        } else {
            proof {
                assert(!stable_at(quotes@, i as int));
            }
            if q.custody.owned == 0 {
                proof {
                    assert(bad_volatile_at(quotes@, i as int));
                }
                return Err(ScanError::InsufficientLiquidityData);
            }
            proof {
                lemma_mul_le(q.custody.locked as int, MAX_MONEY as int,
                    q.custody.hourly_funding_bps as int, MAX_BPS as int);
                lemma_mul_le(q.custody.locked * q.custody.hourly_funding_bps,
                    MAX_MONEY * MAX_BPS, SCALE as int, SCALE as int);
            }
            let vr: u128 = (q.custody.locked as u128) * (q.custody.hourly_funding_bps as u128)
                * (SCALE as u128) / (q.custody.owned as u128);
            if vr > MAX_RATE {
                proof {
                    assert(bad_volatile_at(quotes@, i as int));
                }
                return Err(ScanError::InsufficientLiquidityData);
            }
            proof {
                assert(!bad_volatile_at(quotes@, i as int));
            }
        }
        i = i + 1;
    }
    // The stable group shares one pooled rate; derive and check it.
    let mut srate: u128 = 0;
    if any_stable {
        if owned_sum == 0 {
            return Err(ScanError::InsufficientLiquidityData);
        }
        proof {
            lemma_mul_le(locked_sum as int, (MAX_ENTRIES as int) * MAX_MONEY,
                SCALE as int, SCALE as int);
        }
        srate = locked_sum * (SCALE as u128) / owned_sum;
        if srate > MAX_RATE {
            return Err(ScanError::InsufficientLiquidityData);
        }
    }
    let ghost gs = quotes@;
    proof {
        assert(!rates_bad(gs));
    }
    let mut t: Vec<RateEntry> = Vec::new();
    let mut j: usize = 0;
    while j < n
        invariant
            j <= n,
            n == quotes@.len(),
            forall|k: int| 0 <= k < quotes@.len() ==> quote_in_range(#[trigger] quotes@[k]),
            owned_sum as int == stable_owned(quotes@, n as int),
            locked_sum as int == stable_locked(quotes@, n as int),
            any_stable == has_stable(quotes@, n as int),
            !bad_volatile(quotes@, n as int),
            any_stable ==> owned_sum > 0 && srate as int == stable_rate(quotes@, n as int)
                && srate <= MAX_RATE,
            t@.len() == j,
            forall|k: int| 0 <= k < j ==> (#[trigger] t@[k]).address@ == quotes@[k].address@
                && t@[k].rate as int == spec_rate(quotes@, quotes@[k])
                && t@[k].rate <= MAX_RATE,
        decreases n - j,
    {
        let q = &quotes[j];
        let stable = crate::price::classify(q.price) == crate::price::AssetClass::Stable;
        let rate: u128;
        if stable {
            proof {
                assert(stable_at(quotes@, j as int));
            }
            rate = srate;
        } else {
            proof {
                assert(!bad_volatile_at(quotes@, j as int));
                lemma_mul_le(q.custody.locked as int, MAX_MONEY as int,
                    q.custody.hourly_funding_bps as int, MAX_BPS as int);
                lemma_mul_le(q.custody.locked * q.custody.hourly_funding_bps,
                    MAX_MONEY * MAX_BPS, SCALE as int, SCALE as int);
            }
            rate = (q.custody.locked as u128) * (q.custody.hourly_funding_bps as u128)
                * (SCALE as u128) / (q.custody.owned as u128);
        }
        let entry = RateEntry { address: clone_bytes(&q.address), rate };
        t.push(entry);
        j = j + 1;
    }
    proof {
        assert(rates_view(t@) =~= spec_rate_tab(quotes@));
    }
    Ok(t)
}

} // verus!
