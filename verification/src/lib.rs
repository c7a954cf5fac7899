//! Point-in-time analytics for a perpetual-futures protocol.
//!
//! The crate decodes raw account records (pool, custody, position) from
//! their fixed byte layout, classifies each collateral asset as stable or
//! volatile from its oracle price, derives an hourly borrow rate per
//! custody, and folds every open position into aggregate statistics
//! (counts, cumulative values, fees, unrealized PnL, extremal trades).
//!
//! All monetary quantities are fixed-point integers with six implied
//! decimals ("micros"); nothing here touches floating point.  Fetching
//! accounts, reading oracles and rendering reports are left to the caller.

pub mod model;
pub mod price;
pub mod decode;
pub mod lookup;
pub mod rates;
pub mod stats;
pub mod scan;
pub mod csvlog;
