//! An in-memory ledger engine: it applies an ordered stream of deposits,
//! withdrawals, disputes, resolves and chargebacks to per-client accounts.
//!
//! Amounts are fixed-point integers counted in ten-thousandths of a unit
//! (see `fields`), so that balance arithmetic is exact.
pub mod fields;
pub mod model;
pub mod processor;
pub mod types;
