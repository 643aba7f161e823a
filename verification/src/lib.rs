//! A two-asset liquidity pool coupled with a leveraged-position engine that
//! borrows from the pool.
//!
//! All monetary quantities are signed fixed-point integers scaled by
//! `fixed::SCALAR_7` (seven decimal digits). The pool accepts deposits of two
//! assets, issues a proportional share token, and steers every deposit and
//! withdrawal toward a configured target allocation. The position engine lets
//! a trader post collateral, borrow a multiple of it from the pool, and later
//! close, fill, or be liquidated, with fees for price impact, funding time,
//! and liquidation risk.
//!
//! The host environment's collaborators are modelled as explicit values:
//! account identities are plain integers, the fungible-asset ledger is the
//! [`ledger::Ledger`] table, price feeds are the [`oracle::OracleState`]
//! table, and the scoped single-use transfer authorization is the
//! [`ledger::TransferPermit`] object, consumed by move.

pub mod errors;
pub mod fixed;
pub mod ledger;
pub mod oracle;
pub mod pool;
pub mod position;
pub mod manager;
