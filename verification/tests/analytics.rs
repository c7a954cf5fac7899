use perp_analytics::model::{Pool, Custody, Position, CustodyQuote, PositionEntry, Side,
    DecodeError, ScanError};
use perp_analytics::decode::{decode_pool, decode_custody, decode_position};
use perp_analytics::price::{classify, AssetClass};
use perp_analytics::rates::{build_borrow_rates, volatile_mint_prices};
use perp_analytics::stats::{aggregate_positions, leverage_ratio, avg_leverage_at_entry,
    avg_effective_leverage};
use perp_analytics::scan::scan;
use perp_analytics::csvlog::{csv_header, append_row};

fn tag(b: u8) -> Vec<u8> {
    vec![b; 8]
}

fn addr(b: u8) -> Vec<u8> {
    vec![b; 32]
}

fn le(x: u64) -> Vec<u8> {
    x.to_le_bytes().to_vec()
}

fn pool_bytes(t: u8, aum: u64, bps: u64) -> Vec<u8> {
    let mut v = tag(t);
    v.extend(le(aum));
    v.extend(le(bps));
    v
}

fn custody_bytes(t: u8, mint: u8, oracle: u8, owned: u64, locked: u64, bps: u64) -> Vec<u8> {
    let mut v = tag(t);
    v.extend(addr(mint));
    v.extend(addr(oracle));
    v.extend(le(owned));
    v.extend(le(locked));
    v.extend(le(bps));
    v
}

fn position_bytes(
    t: u8,
    custody: u8,
    coll_custody: u8,
    side: u8,
    size: u64,
    price: u64,
    coll: u64,
    update: u64,
) -> Vec<u8> {
    let mut v = tag(t);
    v.extend(addr(custody));
    v.extend(addr(coll_custody));
    v.push(side);
    v.extend(le(size));
    v.extend(le(price));
    v.extend(le(coll));
    v.extend(le(update));
    v
}

fn quote(address: u8, mint: u8, owned: u64, locked: u64, bps: u64, price: u64) -> CustodyQuote {
    CustodyQuote {
        address: addr(address),
        custody: Custody {
            mint: addr(mint),
            oracle: addr(200),
            owned,
            locked,
            hourly_funding_bps: bps,
        },
        price,
    }
}

fn position(
    address: u8,
    custody: u8,
    coll_custody: u8,
    side: Side,
    size: u64,
    price: u64,
    coll: u64,
    update: u64,
) -> PositionEntry {
    PositionEntry {
        address: addr(address),
        position: Position {
            custody: addr(custody),
            collateral_custody: addr(coll_custody),
            side,
            size_usd: size,
            price,
            collateral_usd: coll,
            update_time: update,
        },
    }
}

#[test]
fn decode_pool_roundtrip() {
    let b = pool_bytes(7, 5_000_000_000000, 25);
    let p = decode_pool(&b, &tag(7)).unwrap();
    assert_eq!(p.aum_usd, 5_000_000_000000);
    assert_eq!(p.increase_position_bps, 25);
}

#[test]
fn decode_pool_tag_mismatch() {
    let b = pool_bytes(7, 1, 2);
    assert!(matches!(decode_pool(&b, &tag(8)), Err(DecodeError::TagMismatch)));
}

#[test]
fn decode_pool_truncated() {
    let mut b = pool_bytes(7, 1, 2);
    b.truncate(20);
    assert!(matches!(decode_pool(&b, &tag(7)), Err(DecodeError::Truncated)));
    let short = vec![7u8; 5];
    assert!(matches!(decode_pool(&short, &tag(7)), Err(DecodeError::Truncated)));
}

#[test]
fn decode_custody_roundtrip() {
    let b = custody_bytes(9, 3, 4, 1_000_000_000000, 500_000_000000, 10);
    let c = decode_custody(&b, &tag(9)).unwrap();
    assert_eq!(c.mint, addr(3));
    assert_eq!(c.oracle, addr(4));
    assert_eq!(c.owned, 1_000_000_000000);
    assert_eq!(c.locked, 500_000_000000);
    assert_eq!(c.hourly_funding_bps, 10);
}

#[test]
fn decode_position_roundtrip() {
    let b = position_bytes(5, 1, 2, 0, 100_000_000000, 90_000000, 10_000_000000, 1_700_000_000);
    let p = decode_position(&b, &tag(5)).unwrap();
    assert_eq!(p.custody, addr(1));
    assert_eq!(p.collateral_custody, addr(2));
    assert_eq!(p.side, Side::Long);
    assert_eq!(p.size_usd, 100_000_000000);
    assert_eq!(p.price, 90_000000);
    assert_eq!(p.collateral_usd, 10_000_000000);
    assert_eq!(p.update_time, 1_700_000_000);

    let b = position_bytes(5, 1, 2, 1, 1, 1, 1, 1);
    assert_eq!(decode_position(&b, &tag(5)).unwrap().side, Side::Short);
}

#[test]
fn decode_position_invalid_side() {
    let b = position_bytes(5, 1, 2, 7, 1, 1, 1, 1);
    assert!(matches!(decode_position(&b, &tag(5)), Err(DecodeError::InvalidSide)));
}

#[test]
fn classify_boundaries() {
    // 0.49, 0.5, 1.49, 1.5 in micros: the rule is round(price) == 1.0.
    assert_eq!(classify(490_000), AssetClass::Volatile);
    assert_eq!(classify(500_000), AssetClass::Stable);
    assert_eq!(classify(1_490_000), AssetClass::Stable);
    assert_eq!(classify(1_500_000), AssetClass::Volatile);
}

#[test]
fn volatile_rate_from_utilization() {
    // Utilization 0.5 at 10 bps hourly: 5 bps, i.e. 5_000_000 micro-bps.
    let quotes = vec![quote(1, 3, 1_000_000_000000, 500_000_000000, 10, 100_000000)];
    let t = build_borrow_rates(&quotes).unwrap();
    assert_eq!(t.len(), 1);
    assert_eq!(t[0].address, addr(1));
    assert_eq!(t[0].rate, 5_000_000);
}

#[test]
fn stable_rates_identical() {
    // Two stable custodies with different balances share one pooled rate.
    let quotes = vec![
        quote(1, 3, 900_000_000000, 100_000_000000, 10, 1_000_000),
        quote(2, 4, 100_000_000000, 100_000_000000, 50, 999_000),
    ];
    let t = build_borrow_rates(&quotes).unwrap();
    // Pooled: (100e12 + 100e12) * 1e6 / (900e12 + 100e12) = 200_000 micro-bps.
    assert_eq!(t[0].rate, t[1].rate);
    assert_eq!(t[0].rate, 200_000);
}

#[test]
fn volatile_zero_owned_is_fatal() {
    let quotes = vec![quote(1, 3, 0, 0, 10, 100_000000)];
    assert!(matches!(build_borrow_rates(&quotes), Err(ScanError::InsufficientLiquidityData)));
}

#[test]
fn stable_zero_owned_is_fatal() {
    let quotes = vec![quote(1, 3, 0, 0, 10, 1_000_000)];
    assert!(matches!(build_borrow_rates(&quotes), Err(ScanError::InsufficientLiquidityData)));
}

#[test]
fn volatile_prices_skip_stables() {
    let quotes = vec![
        quote(1, 3, 1_000_000_000000, 0, 10, 1_000_000),
        quote(2, 4, 1_000_000_000000, 0, 10, 55_000000),
    ];
    let p = volatile_mint_prices(&quotes);
    assert_eq!(p.len(), 1);
    assert_eq!(p[0].mint, addr(4));
    assert_eq!(p[0].price, 55_000000);
}

#[test]
fn aggregate_counts_and_value_split() {
    let now = 1_700_000_000u64;
    let quotes = vec![quote(1, 3, 1_000_000_000000, 500_000_000000, 10, 100_000000)];
    let rates = build_borrow_rates(&quotes).unwrap();
    let prices = volatile_mint_prices(&quotes);
    let positions = vec![
        position(10, 1, 1, Side::Long, 100_000_000000, 90_000000, 10_000_000000, now - 3600),
        position(11, 1, 1, Side::Short, 50_000_000000, 110_000000, 5_000_000000, now - 7200),
        position(12, 1, 1, Side::Long, 20_000_000000, 100_000000, 2_000_000000, now - 3600),
        // A closed position must be skipped everywhere.
        position(13, 1, 1, Side::Long, 0, 1, 1, now),
    ];
    let s = aggregate_positions(&positions, &quotes, &prices, &rates, 25, now).unwrap();
    assert_eq!(s.num_positions, 3);
    assert_eq!(s.num_longs, 2);
    assert_eq!(s.num_shorts, 1);
    assert_eq!(s.num_longs + s.num_shorts, s.num_positions);
    assert_eq!(s.cum_long_value + s.cum_short_value, s.cum_value_current);
}

#[test]
fn aggregate_missing_custody_is_fatal() {
    let now = 1_700_000_000u64;
    let quotes = vec![quote(1, 3, 1_000_000_000000, 0, 10, 100_000000)];
    let rates = build_borrow_rates(&quotes).unwrap();
    let prices = volatile_mint_prices(&quotes);
    let positions = vec![
        position(10, 99, 1, Side::Long, 1_000000, 1_000000, 1_000000, now),
    ];
    assert!(matches!(
        aggregate_positions(&positions, &quotes, &prices, &rates, 0, now),
        Err(ScanError::MissingRelation)
    ));
}

#[test]
fn aggregate_missing_rate_is_fatal() {
    let now = 1_700_000_000u64;
    let quotes = vec![quote(1, 3, 1_000_000_000000, 0, 10, 100_000000)];
    let rates = build_borrow_rates(&quotes).unwrap();
    let prices = volatile_mint_prices(&quotes);
    let positions = vec![
        position(10, 1, 99, Side::Long, 1_000000, 1_000000, 1_000000, now),
    ];
    assert!(matches!(
        aggregate_positions(&positions, &quotes, &prices, &rates, 0, now),
        Err(ScanError::MissingRelation)
    ));
}

#[test]
fn aggregate_stable_position_has_no_price() {
    // The price table only covers volatile mints: a position against a
    // stable custody fails with UnknownMint.
    let now = 1_700_000_000u64;
    let quotes = vec![quote(1, 3, 1_000_000_000000, 0, 10, 1_000_000)];
    let rates = build_borrow_rates(&quotes).unwrap();
    let prices = volatile_mint_prices(&quotes);
    let positions = vec![
        position(10, 1, 1, Side::Long, 1_000000, 1_000000, 1_000000, now),
    ];
    assert!(matches!(
        aggregate_positions(&positions, &quotes, &prices, &rates, 0, now),
        Err(ScanError::UnknownMint)
    ));
}

#[test]
fn aggregate_zero_entry_price_is_fatal() {
    let now = 1_700_000_000u64;
    let quotes = vec![quote(1, 3, 1_000_000_000000, 0, 10, 100_000000)];
    let rates = build_borrow_rates(&quotes).unwrap();
    let prices = volatile_mint_prices(&quotes);
    let positions = vec![
        position(10, 1, 1, Side::Long, 1_000000, 0, 1_000000, now),
    ];
    assert!(matches!(
        aggregate_positions(&positions, &quotes, &prices, &rates, 0, now),
        Err(ScanError::DivisionUndefined)
    ));
}

#[test]
fn scan_end_to_end() {
    // One pool, one volatile custody at price 100.0, one long opened at
    // 90.0 an hour ago.
    let now = 1_700_000_000u64;
    let pool = Pool { aum_usd: 5_000_000_000000, increase_position_bps: 0 };
    let quotes = vec![quote(1, 3, 1_000_000_000000, 500_000_000000, 10, 100_000000)];
    let positions = vec![
        position(10, 1, 1, Side::Long, 100_000_000000, 90_000000, 10_000_000000, now - 3600),
    ];
    let s = scan(&pool, &quotes, &positions, now).unwrap();
    // amount = 1111.111111 units; current value = 111_111.1111 USD.
    assert_eq!(s.cum_value_current, 111_111_111_100);
    assert_eq!(s.cum_value_entry, 100_000_000000);
    // Unrealized PnL = 11_111.1111 USD.
    assert_eq!(s.cum_pnl, 11_111_111_100);
    // Borrow rate 5 bps for one hour on 100_000 USD = 50 USD of fees.
    assert_eq!(s.cum_fees, 50_000_000);
    assert_eq!(s.num_positions, 1);
    assert_eq!(s.num_longs, 1);
    assert_eq!(s.num_winning, 1);
    // Collateral marked to price: 10_000 + 1111.111111 * 10 = 21_111.11111.
    assert_eq!(s.cum_collateral_entry, 10_000_000000);
    assert_eq!(s.cum_collateral_current, 10_000_000000 + 11_111_111_110);
    // The single winning trade is the record holder.
    let best = s.best.as_ref().unwrap();
    assert_eq!(best.address, addr(10));
    assert_eq!(best.pnl, 11_111_111_100);
    assert_eq!(best.entry_price, 90_000000);
    assert_eq!(best.side, Side::Long);
    assert_eq!(best.mint, addr(3));
    assert!(s.worst.is_none());
    // Average leverage at entry: 100_000 / 10_000 = 10.0000.
    assert_eq!(avg_leverage_at_entry(&s), Some(100_000));
}

#[test]
fn scan_without_active_positions_has_undefined_leverage() {
    let now = 1_700_000_000u64;
    let pool = Pool { aum_usd: 1_000000, increase_position_bps: 25 };
    let quotes = vec![quote(1, 3, 1_000_000_000000, 0, 10, 100_000000)];
    let positions = vec![position(10, 1, 1, Side::Long, 0, 1, 1, now)];
    let s = scan(&pool, &quotes, &positions, now).unwrap();
    assert_eq!(s.num_positions, 0);
    assert_eq!(avg_leverage_at_entry(&s), None);
    assert_eq!(avg_effective_leverage(&s), None);
}

#[test]
fn leverage_ratio_signs() {
    assert_eq!(leverage_ratio(100, 0), None);
    assert_eq!(leverage_ratio(200_000000, 100_000000), Some(20_000));
    assert_eq!(leverage_ratio(200_000000, -100_000000), Some(-20_000));
    // Truncation on the magnitude.
    assert_eq!(leverage_ratio(100, 3), Some(333_333));
}

#[test]
fn log_header_written_once() {
    let mut lines: Vec<Vec<String>> = Vec::new();
    let row1: Vec<String> = (0..12).map(|i| format!("a{}", i)).collect();
    let row2: Vec<String> = (0..12).map(|i| format!("b{}", i)).collect();
    append_row(&mut lines, row1.clone());
    append_row(&mut lines, row2.clone());
    assert_eq!(lines.len(), 3);
    assert_eq!(lines[0], csv_header());
    assert_eq!(lines[0].len(), 12);
    assert_eq!(lines[0][0], "Unix Time");
    assert_eq!(lines[0][11], "Short Value");
    assert_eq!(lines[1], row1);
    assert_eq!(lines[2], row2);
    assert_eq!(lines[1].len(), 12);
    assert_eq!(lines[2].len(), 12);
}
