//! Risk engine for a multi-market lending protocol.
//!
//! The engine decides whether a requested account action (supply, withdraw,
//! borrow, repay, liquidate, seize collateral, transfer pool shares) is
//! solvency-safe, and computes the financial quantities needed for that
//! decision: collateral value, debt value, health factor and liquidation
//! seize amounts. All cross-contract reads (pool balances, oracle prices)
//! are handed in by the caller as plain snapshot values, so every decision
//! is a pure function of explicit state.

pub mod types;
pub mod wide;
pub mod oracle;
pub mod math;
pub mod controller;
pub mod faucet;
pub mod marketplace;
