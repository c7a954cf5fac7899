//! Core data model: record types, fixed-point constants and range bounds.
//!
//! Every monetary amount (USD values, prices, collateral, pool assets)
//! is a fixed-point integer with six implied decimals, called "micros"
//! below.  Borrow rates are kept in micro basis points (a basis point
//! with six implied decimals) and leverage ratios in four implied
//! decimals, matching the precision of the rendered report.

use vstd::prelude::*;

verus! {

/// Fixed-point scale: one unit is `SCALE` micros.
pub const SCALE: u64 = 1_000_000;

/// Leverage ratios carry four implied decimals.
pub const LEV_SCALE: u64 = 10_000;

/// Basis points per unit: fees quoted in bps are divided by this.
pub const BPS_DENOM: u64 = 10_000;

/// Combined divisor for borrow fees: bps (10^4) times the implied
/// decimals of the micro-hour factor (10^6).
pub const BORROW_FEE_DENOM: u64 = 10_000_000_000;

pub const SECONDS_PER_HOUR: u64 = 3_600;

/// Capacity bound on any single monetary field: 10^8 USD in micros.
/// Inputs beyond this bound cannot be aggregated without overflowing
/// the 128-bit accumulators.
pub const MAX_MONEY: u64 = 100_000_000_000_000;

/// Capacity bound on any basis-point field (100% per hour).
pub const MAX_BPS: u64 = 1_000_000;

/// Capacity bound on unix timestamps (seconds).
pub const MAX_TIME: u64 = 1_000_000_000_000;

/// Capacity bound on a derived borrow rate, in micro basis points.
/// A rate beyond this signals unusable liquidity data.
pub const MAX_RATE: u128 = 1_000_000_000_000;

/// Capacity bound on the number of records of one kind in a scan.
pub const MAX_ENTRIES: usize = 1_000_000;

/// Direction of a position.
#[derive(Clone, Copy, Debug, PartialEq, Eq, Structural)]
pub enum Side {
    Long,
    Short,
}

/// Protocol-wide pool record: assets under management and the fee, in
/// basis points, charged when exposure is opened or closed.
pub struct Pool {
    pub aum_usd: u64,
    pub increase_position_bps: u64,
}

/// One collateral asset: its mint identifier, its oracle address, the
/// owned and locked balances (micros) and the hourly funding rate (bps).
pub struct Custody {
    pub mint: Vec<u8>,
    pub oracle: Vec<u8>,
    pub owned: u64,
    pub locked: u64,
    pub hourly_funding_bps: u64,
}

/// One trader position.  `size_usd == 0` marks a closed position that
/// every aggregate skips.  `price` is the entry price in micros.
pub struct Position {
    pub custody: Vec<u8>,
    pub collateral_custody: Vec<u8>,
    pub side: Side,
    pub size_usd: u64,
    pub price: u64,
    pub collateral_usd: u64,
    pub update_time: u64,
}

/// A custody record paired with its on-chain address and its resolved
/// oracle price (micros per unit), valid for one scan.
pub struct CustodyQuote {
    pub address: Vec<u8>,
    pub custody: Custody,
    pub price: u64,
}

/// A position record paired with its on-chain address.
pub struct PositionEntry {
    pub address: Vec<u8>,
    pub position: Position,
}

/// Current unit price for a mint, in micros.
pub struct MintPrice {
    pub mint: Vec<u8>,
    pub price: u64,
}

/// Derived hourly borrow rate for one custody, in micro basis points.
pub struct RateEntry {
    pub address: Vec<u8>,
    pub rate: u128,
}

/// Errors of the decode stage.
#[derive(Clone, Copy, Debug, PartialEq, Eq, Structural)]
pub enum DecodeError {
    /// The leading discriminator does not match the expected tag.
    TagMismatch,
    /// The buffer is too short for the record's fixed layout.
    Truncated,
    /// The side byte encodes neither long nor short.
    InvalidSide,
}

/// Errors of the scan stages past decoding.
#[derive(Clone, Copy, Debug, PartialEq, Eq, Structural)]
pub enum ScanError {
    /// A position references a custody or rate entry absent from the
    /// snapshot: a torn read, fatal.
    MissingRelation,
    /// A position's mint has no resolved price.
    UnknownMint,
    /// A ratio with a zero denominator (a position with entry price 0).
    DivisionUndefined,
    /// Borrow-rate derivation met unusable liquidity data: a volatile
    /// custody with nothing owned, a stable group with nothing owned,
    /// or a rate beyond `MAX_RATE`.
    InsufficientLiquidityData,
}

pub open spec fn pool_in_range(p: Pool) -> bool {
    p.increase_position_bps <= MAX_BPS
}

pub open spec fn custody_in_range(c: Custody) -> bool {
    &&& c.owned <= MAX_MONEY
    &&& c.locked <= MAX_MONEY
    &&& c.hourly_funding_bps <= MAX_BPS
}

pub open spec fn quote_in_range(q: CustodyQuote) -> bool {
    &&& custody_in_range(q.custody)
    &&& q.price <= MAX_MONEY
}

pub open spec fn position_in_range(p: Position) -> bool {
    &&& p.size_usd <= MAX_MONEY
    &&& p.price <= MAX_MONEY
    &&& p.collateral_usd <= MAX_MONEY
    &&& p.update_time <= MAX_TIME
}

/// Runtime check matching `pool_in_range`, for callers that receive
/// records from outside the verified boundary.
pub fn check_pool_in_range(p: &Pool) -> (b: bool)
    ensures
        b == pool_in_range(*p),
{
    p.increase_position_bps <= MAX_BPS
}

/// Runtime check matching `quote_in_range`.
pub fn check_quote_in_range(q: &CustodyQuote) -> (b: bool)
    ensures
        b == quote_in_range(*q),
{
    q.custody.owned <= MAX_MONEY && q.custody.locked <= MAX_MONEY
        && q.custody.hourly_funding_bps <= MAX_BPS && q.price <= MAX_MONEY
}

/// Runtime check matching `position_in_range`.
pub fn check_position_in_range(p: &Position) -> (b: bool)
    ensures
        b == position_in_range(*p),
{
    p.size_usd <= MAX_MONEY && p.price <= MAX_MONEY && p.collateral_usd <= MAX_MONEY
        && p.update_time <= MAX_TIME
}

} // verus!
