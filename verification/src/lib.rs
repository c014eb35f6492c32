//! State-transition engine of a two-asset constant-product market maker.
//!
//! A [`LiquidityPool`] records the reserves of one trading pair together with
//! the supply of its liquidity shares. Deposits, withdrawals and exchanges are
//! computed on that record alone: each operation either rejects its input and
//! leaves the record as it was, or yields the complete next record. Storing
//! the record and moving the assets is left to the caller.
//!
//! All arithmetic on balances is checked, and every division rounds down, in
//! favour of the pool.

pub mod error;
pub mod liquidity_pool;
pub mod math;
pub mod pallet;
pub mod theorems;

pub use error::{AssetId, Balance, Error};
pub use liquidity_pool::LiquidityPool;
pub use pallet::Pallet;
