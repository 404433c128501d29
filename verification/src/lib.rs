//! Verified core of a two-asset constant-product liquidity pool.
//!
//! The crate prices a trade against pooled reserves with a basis-point fee
//! (`math`), moves custody of funds between a user and the pool's reserve
//! accounts under an explicit authority check (`custody`), and orchestrates
//! the two transfer legs of an atomic swap with slippage protection (`swap`).
//! Pool configuration lives in `state`, and every failure is a variant of
//! [`errors::AmmError`].

pub mod custody;
pub mod errors;
pub mod math;
pub mod state;
pub mod swap;
