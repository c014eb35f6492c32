//! The reasons for which an operation on a pool is rejected.

use vstd::prelude::*;

verus! {

/// Identifier of a fungible asset.
pub type AssetId = u32;

/// Amount of an asset or of liquidity shares.
pub type Balance = u128;

/// Why an operation was rejected. A rejected operation changes nothing.
#[derive(Clone, Copy, Debug, PartialEq, Eq, Structural)]
pub enum Error {
    /// The pool holds no liquidity, or less than is to be burned.
    InsufficientLiquidity,
    /// A reserve is smaller than the amount to be taken from it.
    InsufficientReserves,
    /// A reserve would exceed the largest balance.
    ReserveOverflow,
    /// The supply of liquidity shares would exceed the largest balance.
    LiquidityOverflow,
    /// The asset handed in is not one of the pool's pair.
    InvalidAssetIn,
    /// The asset asked for is not one of the pool's pair.
    InvalidAssetOut,
    /// The amount that would be paid out is below the caller's minimum.
    InsufficientAmountOut,
    /// A product or sum of balances exceeds the largest balance.
    ArithmeticOverflow,
    /// A division by a zero reserve or a zero share supply.
    DivisionByZero,
    /// A pool for the trading pair exists already.
    LiquidityPoolAlreadyExists,
    /// There is no pool for the trading pair.
    LiquidityPoolNotFound,
    /// A deposit with a zero amount, or one that would mint fewer shares
    /// than the caller's minimum.
    InsufficientLiquidityMinted,
    /// A withdrawal of zero shares.
    ZeroLiquidityBurned,
}

} // verus!
