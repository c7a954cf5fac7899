//! Stable/volatile classification of an oracle price.
//!
//! An asset is stable exactly when its price, read as a six-decimal
//! fixed-point number, rounds to 1.0 under round-half-away-from-zero:
//! that is, when the price in micros lies in `[500_000, 1_500_000)`.
//! The rule is binary and exact; there is no configurable threshold.

use vstd::prelude::*;
use crate::model::SCALE;

verus! {

/// Classification of a collateral asset for one scan.
#[derive(Clone, Copy, Debug, PartialEq, Eq, Structural)]
pub enum AssetClass {
    Stable,
    Volatile,
}

/// A price in micros rounds to 1.0 iff it lies in `[SCALE/2, 3*SCALE/2)`.
pub open spec fn is_stable(price_micro: int) -> bool {
    SCALE / 2 <= price_micro < 3 * (SCALE / 2)
}

/// Classify a unit price (micros) as stable or volatile.
pub fn classify(price_micro: u64) -> (c: AssetClass)
    ensures
        (c == AssetClass::Stable) <==> is_stable(price_micro as int),
        (c == AssetClass::Volatile) <==> !is_stable(price_micro as int),
{
    if SCALE / 2 <= price_micro && price_micro < 3 * (SCALE / 2) {
        AssetClass::Stable
    } else {
        AssetClass::Volatile
    }
}

} // verus!
