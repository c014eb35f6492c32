//! The operations that a ledger offers on its pools: creating one,
//! depositing into one and withdrawing from one.
//!
//! Each takes what the ledger's registry holds for the trading pair and
//! returns the record to store in its place; it neither stores nor moves
//! assets itself.

use crate::error::{AssetId, Balance, Error};
use crate::liquidity_pool::LiquidityPool;
use crate::math::{
    floor_sqrt, integer_sqrt, lemma_floor_div_lt, lemma_floor_sqrt_exists, lemma_floor_sqrt_is,
};
use vstd::prelude::*;

verus! {

/// The operations on the pools of a ledger.
pub struct Pallet;

impl Pallet {
    /// The geometric mean of two amounts, rounded down, where their product
    /// fits a balance.
    pub open spec fn geometric_mean_of(amount_a: Balance, amount_b: Balance) -> Result<
        Balance,
        Error,
    > {
        if amount_a * amount_b > Balance::MAX {
            Err(Error::ArithmeticOverflow)
        } else {
            Ok(floor_sqrt(amount_a * amount_b) as Balance)
        }
    }

    /// The shares owed for a deposit of `amounts` into a pool with
    /// `reserves` and `total_liquidity` shares.
    ///
    /// The first deposit is owed the geometric mean of its amounts. A later
    /// one is owed, for each side, the part of the share supply that its
    /// amount is of the reserve, rounded down, and of the two the smaller.
    pub open spec fn liquidity_minted(
        amounts: (Balance, Balance),
        reserves: (Balance, Balance),
        total_liquidity: Balance,
    ) -> Result<Balance, Error> {
        if amounts.0 == 0 || amounts.1 == 0 {
            Err(Error::InsufficientLiquidityMinted)
        } else if total_liquidity == 0 {
            Self::geometric_mean_of(amounts.0, amounts.1)
        } else if amounts.0 * total_liquidity > Balance::MAX {
            Err(Error::ArithmeticOverflow)
        } else if reserves.0 == 0 {
            Err(Error::DivisionByZero)
        } else if amounts.1 * total_liquidity > Balance::MAX {
            Err(Error::ArithmeticOverflow)
        } else if reserves.1 == 0 {
            Err(Error::DivisionByZero)
        } else {
            let minted_a = amounts.0 * total_liquidity / (reserves.0 as int);
            let minted_b = amounts.1 * total_liquidity / (reserves.1 as int);
            Ok(
                if minted_a <= minted_b {
                    minted_a as Balance
                } else {
                    minted_b as Balance
                },
            )
        }
    }

    /// The amounts owed for burning `liquidity_burned` shares of a pool with
    /// `reserves` and `total_liquidity` shares: of each reserve the part
    /// that the burned shares are of the supply, rounded down.
    pub open spec fn amounts_out(
        liquidity_burned: Balance,
        reserves: (Balance, Balance),
        total_liquidity: Balance,
    ) -> Result<(Balance, Balance), Error> {
        if liquidity_burned == 0 {
            Err(Error::ZeroLiquidityBurned)
        } else if total_liquidity == 0 || reserves.0 == 0 || reserves.1 == 0 {
            Err(Error::InsufficientLiquidity)
        } else if liquidity_burned * reserves.0 > Balance::MAX || liquidity_burned * reserves.1
            > Balance::MAX {
            Err(Error::ArithmeticOverflow)
        } else {
            Ok(
                (
                    (liquidity_burned * reserves.0 / (total_liquidity as int)) as Balance,
                    (liquidity_burned * reserves.1 / (total_liquidity as int)) as Balance,
                ),
            )
        }
    }

    /// The pool that is created for a pair, unless the pair has one.
    pub open spec fn pool_created(
        exists: bool,
        asset_a: AssetId,
        asset_b: AssetId,
        liquidity_token: AssetId,
    ) -> Result<LiquidityPool, Error> {
        if exists {
            Err(Error::LiquidityPoolAlreadyExists)
        } else {
            Ok(LiquidityPool::empty((asset_a, asset_b), liquidity_token))
        }
    }

    /// The pool after a deposit of `amount_a` and `amount_b`, with the
    /// shares minted for it, or the reason why the deposit is rejected.
    pub open spec fn liquidity_added(
        pool: Option<LiquidityPool>,
        amount_a: Balance,
        amount_b: Balance,
        min_liquidity: Balance,
    ) -> Result<(LiquidityPool, Balance), Error> {
        match pool {
            None => Err(Error::LiquidityPoolNotFound),
            Some(pool) => match Self::liquidity_minted(
                (amount_a, amount_b),
                pool.reserves,
                pool.total_liquidity,
            ) {
                Err(e) => Err(e),
                Ok(liquidity_minted) => if liquidity_minted < min_liquidity {
                    Err(Error::InsufficientLiquidityMinted)
                } else {
                    match pool.minted((amount_a, amount_b), liquidity_minted) {
                        Err(e) => Err(e),
                        Ok(next) => Ok((next, liquidity_minted)),
                    }
                },
            },
        }
    }

    /// The pool after `liquidity_burned` shares were burned, with the
    /// amounts paid out for them, or the reason why the withdrawal is
    /// rejected.
    pub open spec fn liquidity_removed(
        pool: Option<LiquidityPool>,
        liquidity_burned: Balance,
        min_amount_a: Balance,
        min_amount_b: Balance,
    ) -> Result<(LiquidityPool, (Balance, Balance)), Error> {
        match pool {
            None => Err(Error::LiquidityPoolNotFound),
            Some(pool) => match Self::amounts_out(
                liquidity_burned,
                pool.reserves,
                pool.total_liquidity,
            ) {
                Err(e) => Err(e),
                Ok(amounts_out) => if amounts_out.0 < min_amount_a || amounts_out.1
                    < min_amount_b {
                    Err(Error::InsufficientAmountOut)
                } else {
                    match pool.burned(liquidity_burned, amounts_out) {
                        Err(e) => Err(e),
                        Ok(next) => Ok((next, amounts_out)),
                    }
                },
            },
        }
    }

    /// The geometric mean of two amounts that are not zero is not zero, and
    /// is no larger than their product.
    pub proof fn lemma_geometric_mean_positive(amount_a: Balance, amount_b: Balance)
        requires
            amount_a > 0,
            amount_b > 0,
        ensures
            1 <= floor_sqrt(amount_a * amount_b) <= amount_a * amount_b,
    {
        let n = amount_a * amount_b;
        assert(1 <= n) by (nonlinear_arith)
            requires
                n == amount_a * amount_b,
                1 <= amount_a,
                1 <= amount_b,
        ;
        lemma_floor_sqrt_exists(n);
        let r = floor_sqrt(n);
        assert(r <= r * r) by (nonlinear_arith)
            requires
                0 <= r,
        ;
    }

    /// A deposit that is accepted leaves a well-formed pool well-formed.
    pub proof fn lemma_liquidity_added_wf(
        pool: LiquidityPool,
        amount_a: Balance,
        amount_b: Balance,
        min_liquidity: Balance,
    )
        requires
            pool.wf(),
        ensures
            Self::liquidity_added(Some(pool), amount_a, amount_b, min_liquidity) matches Ok(
                (after, _),
            ) ==> after.wf(),
    {
        if Self::liquidity_added(Some(pool), amount_a, amount_b, min_liquidity) is Ok {
            if pool.total_liquidity == 0 {
                Self::lemma_geometric_mean_positive(amount_a, amount_b);
            }
        }
    }

    /// A withdrawal that is accepted leaves a well-formed pool well-formed:
    /// it empties the pool where all shares are burned, and leaves
    /// something of both reserves where fewer are.
    pub proof fn lemma_liquidity_removed_wf(
        pool: LiquidityPool,
        liquidity_burned: Balance,
        min_amount_a: Balance,
        min_amount_b: Balance,
    )
        requires
            pool.wf(),
        ensures
            Self::liquidity_removed(
                Some(pool),
                liquidity_burned,
                min_amount_a,
                min_amount_b,
            ) matches Ok((after, _)) ==> after.wf(),
    {
        if Self::liquidity_removed(Some(pool), liquidity_burned, min_amount_a, min_amount_b)
            is Ok {
            let total = pool.total_liquidity as int;
            let burned = liquidity_burned as int;
            let reserve_a = pool.reserves.0 as int;
            let reserve_b = pool.reserves.1 as int;
            if burned == total {
                vstd::arithmetic::div_mod::lemma_div_multiples_vanish(reserve_a, total);
                vstd::arithmetic::div_mod::lemma_div_multiples_vanish(reserve_b, total);
            } else {
                assert(burned * reserve_a < total * reserve_a) by (nonlinear_arith)
                    requires
                        0 <= burned < total,
                        0 < reserve_a,
                ;
                assert(burned * reserve_b < total * reserve_b) by (nonlinear_arith)
                    requires
                        0 <= burned < total,
                        0 < reserve_b,
                ;
                lemma_floor_div_lt(burned * reserve_a, total, reserve_a);
                lemma_floor_div_lt(burned * reserve_b, total, reserve_b);
            }
        }
    }

    /// The geometric mean of two amounts, rounded down.
    pub fn geometric_mean(amount_a: Balance, amount_b: Balance) -> (res: Result<Balance, Error>)
        ensures
            res == Self::geometric_mean_of(amount_a, amount_b),
    {
        let product: Balance = match amount_a.checked_mul(amount_b) {
            Some(product) => product,
            None => return Err(Error::ArithmeticOverflow),
        };
        let root: Balance = integer_sqrt(product);
        proof {
            lemma_floor_sqrt_is(product as int, root as int);
        }
        Ok(root)
    }

    /// The shares owed for a deposit of `amounts` into a pool with
    /// `reserves` and `total_liquidity` shares.
    pub fn calculate_liquidity_minted(
        amounts: (Balance, Balance),
        reserves: (Balance, Balance),
        total_liquidity: Balance,
    ) -> (res: Result<Balance, Error>)
        ensures
            res == Self::liquidity_minted(amounts, reserves, total_liquidity),
    {
        let (amount_a, amount_b): (Balance, Balance) = amounts;
        let (reserve_a, reserve_b): (Balance, Balance) = reserves;
        if amount_a == 0 || amount_b == 0 {
            return Err(Error::InsufficientLiquidityMinted);
        }
        if total_liquidity == 0 {
            return Self::geometric_mean(amount_a, amount_b);
        }
        let scaled_a: Balance = match amount_a.checked_mul(total_liquidity) {
            Some(product) => product,
            None => return Err(Error::ArithmeticOverflow),
        };
        let minted_a: Balance = match scaled_a.checked_div(reserve_a) {
            Some(quotient) => quotient,
            None => return Err(Error::DivisionByZero),
        };
        let scaled_b: Balance = match amount_b.checked_mul(total_liquidity) {
            Some(product) => product,
            None => return Err(Error::ArithmeticOverflow),
        };
        let minted_b: Balance = match scaled_b.checked_div(reserve_b) {
            Some(quotient) => quotient,
            None => return Err(Error::DivisionByZero),
        };
        if minted_a <= minted_b {
            Ok(minted_a)
        } else {
            Ok(minted_b)
        }
    }

    /// The amounts owed for burning `liquidity_burned` shares of a pool with
    /// `reserves` and `total_liquidity` shares.
    pub fn calculate_amounts_out(
        liquidity_burned: Balance,
        reserves: (Balance, Balance),
        total_liquidity: Balance,
    ) -> (res: Result<(Balance, Balance), Error>)
        ensures
            res == Self::amounts_out(liquidity_burned, reserves, total_liquidity),
    {
        if liquidity_burned == 0 {
            return Err(Error::ZeroLiquidityBurned);
        }
        if total_liquidity == 0 {
            return Err(Error::InsufficientLiquidity);
        }
        let (reserve_a, reserve_b): (Balance, Balance) = reserves;
        if reserve_a == 0 || reserve_b == 0 {
            return Err(Error::InsufficientLiquidity);
        }
        let scaled_a: Balance = match liquidity_burned.checked_mul(reserve_a) {
            Some(product) => product,
            None => return Err(Error::ArithmeticOverflow),
        };
        let amount_a: Balance = match scaled_a.checked_div(total_liquidity) {
            Some(quotient) => quotient,
            None => return Err(Error::DivisionByZero),
        };
        let scaled_b: Balance = match liquidity_burned.checked_mul(reserve_b) {
            Some(product) => product,
            None => return Err(Error::ArithmeticOverflow),
        };
        let amount_b: Balance = match scaled_b.checked_div(total_liquidity) {
            Some(quotient) => quotient,
            None => return Err(Error::DivisionByZero),
        };
        Ok((amount_a, amount_b))
    }

    /// Creates the pool of the pair `(asset_a, asset_b)`, with nothing in
    /// it. `exists` says whether the registry holds a pool for the pair
    /// already; a pair has at most one.
    pub fn create_liquidity_pool(
        exists: bool,
        asset_a: AssetId,
        asset_b: AssetId,
        liquidity_token: AssetId,
    ) -> (res: Result<LiquidityPool, Error>)
        ensures
            res == Self::pool_created(exists, asset_a, asset_b, liquidity_token),
            res matches Ok(pool) ==> pool.wf(),
    {
        if exists {
            return Err(Error::LiquidityPoolAlreadyExists);
        }
        Ok(LiquidityPool::new((asset_a, asset_b), liquidity_token))
    }

    /// Deposits `amount_a` and `amount_b` into `pool`, which is what the
    /// registry holds for the pair, and returns the pool to store with the
    /// shares to mint for the depositor.
    ///
    /// The deposit is rejected where the shares owed for it are fewer than
    /// `min_liquidity`.
    pub fn mint_liquidity(
        pool: Option<LiquidityPool>,
        amount_a: Balance,
        amount_b: Balance,
        min_liquidity: Balance,
    ) -> (res: Result<(LiquidityPool, Balance), Error>)
        ensures
            res == Self::liquidity_added(pool, amount_a, amount_b, min_liquidity),
            match (pool, res) {
                (Some(before), Ok((after, _))) => before.wf() ==> after.wf(),
                _ => true,
            },
    {
        let mut liquidity_pool: LiquidityPool = match pool {
            Some(pool) => pool,
            None => return Err(Error::LiquidityPoolNotFound),
        };
        let liquidity_minted: Balance = match Self::calculate_liquidity_minted(
            (amount_a, amount_b),
            liquidity_pool.reserves,
            liquidity_pool.total_liquidity,
        ) {
            Ok(liquidity) => liquidity,
            Err(e) => return Err(e),
        };
        if liquidity_minted < min_liquidity {
            return Err(Error::InsufficientLiquidityMinted);
        }
        match liquidity_pool.mint((amount_a, amount_b), liquidity_minted) {
            Ok(_) => {
                proof {
                    if pool.unwrap().wf() {
                        Self::lemma_liquidity_added_wf(
                            pool.unwrap(),
                            amount_a,
                            amount_b,
                            min_liquidity,
                        );
                    }
                }
                Ok((liquidity_pool, liquidity_minted))
            },
            Err(e) => Err(e),
        }
    }

    /// Burns `liquidity_burned` shares of `pool`, which is what the registry
    /// holds for the pair, and returns the pool to store with the amounts
    /// to pay out for the shares.
    ///
    /// The withdrawal is rejected where it would pay less than
    /// `min_amount_a` of the first asset or less than `min_amount_b` of the
    /// second. That the shares are the caller's to burn is for the ledger to
    /// see to.
    pub fn burn_liquidity(
        pool: Option<LiquidityPool>,
        liquidity_burned: Balance,
        min_amount_a: Balance,
        min_amount_b: Balance,
    ) -> (res: Result<(LiquidityPool, (Balance, Balance)), Error>)
        ensures
            res == Self::liquidity_removed(pool, liquidity_burned, min_amount_a, min_amount_b),
            match (pool, res) {
                (Some(before), Ok((after, _))) => before.wf() ==> after.wf(),
                _ => true,
            },
    {
        let mut liquidity_pool: LiquidityPool = match pool {
            Some(pool) => pool,
            None => return Err(Error::LiquidityPoolNotFound),
        };
        let amounts_out: (Balance, Balance) = match Self::calculate_amounts_out(
            liquidity_burned,
            liquidity_pool.reserves,
            liquidity_pool.total_liquidity,
        ) {
            Ok(amounts) => amounts,
            Err(e) => return Err(e),
        };
        if amounts_out.0 < min_amount_a || amounts_out.1 < min_amount_b {
            return Err(Error::InsufficientAmountOut);
        }
        match liquidity_pool.burn(liquidity_burned, amounts_out) {
            Ok(_) => {
                proof {
                    if pool.unwrap().wf() {
                        Self::lemma_liquidity_removed_wf(
                            pool.unwrap(),
                            liquidity_burned,
                            min_amount_a,
                            min_amount_b,
                        );
                    }
                }
                Ok((liquidity_pool, amounts_out))
            },
            Err(e) => Err(e),
        }
    }
}

} // verus!
