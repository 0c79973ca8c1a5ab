//! A constant-product automated market maker: a two-asset liquidity pool with
//! proportional share issuance, liquidity provision and withdrawal, and
//! fee-bearing swaps priced against the product of the reserves.

pub mod account;
pub mod errors;
pub mod laws;
pub mod pool;
