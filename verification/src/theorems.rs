//! What holds of the pool whatever is done with it.

use crate::error::{AssetId, Balance, Error};
use crate::liquidity_pool::LiquidityPool;
use crate::math::{lemma_floor_div_bounds, lemma_floor_div_le};
use crate::pallet::Pallet;
use vstd::prelude::*;

verus! {

/// One request to a pool, with the caller's bounds.
pub enum Operation {
    /// A deposit of two amounts.
    Mint { amount_a: Balance, amount_b: Balance, min_liquidity: Balance },
    /// A withdrawal for a number of shares.
    Burn { liquidity_burned: Balance, min_amount_a: Balance, min_amount_b: Balance },
    /// An exchange of one asset for the other.
    Swap { asset_in: AssetId, amount_in: Balance, asset_out: AssetId, min_amount_out: Balance },
}

/// The pool after one request: the next pool where the request is accepted,
/// the same pool where it is rejected.
pub open spec fn step(pool: LiquidityPool, operation: Operation) -> LiquidityPool {
    match operation {
        Operation::Mint { amount_a, amount_b, min_liquidity } => match Pallet::liquidity_added(
            Some(pool),
            amount_a,
            amount_b,
            min_liquidity,
        ) {
            Ok((next, _)) => next,
            Err(_) => pool,
        },
        Operation::Burn {
            liquidity_burned,
            min_amount_a,
            min_amount_b,
        } => match Pallet::liquidity_removed(
            Some(pool),
            liquidity_burned,
            min_amount_a,
            min_amount_b,
        ) {
            Ok((next, _)) => next,
            Err(_) => pool,
        },
        Operation::Swap { asset_in, amount_in, asset_out, min_amount_out } => match pool.swapped(
            asset_in,
            amount_in,
            asset_out,
            min_amount_out,
        ) {
            Ok((next, _)) => next,
            Err(_) => pool,
        },
    }
}

/// The pool after a sequence of requests, taken in order.
pub open spec fn run(pool: LiquidityPool, operations: Seq<Operation>) -> LiquidityPool
    decreases operations.len(),
{
    if operations.len() == 0 {
        pool
    } else {
        step(run(pool, operations.drop_last()), operations.last())
    }
}

/// One request leaves a well-formed pool well-formed, and changes neither
/// the pair nor the share token.
pub proof fn lemma_step_keeps_wf(pool: LiquidityPool, operation: Operation)
    requires
        pool.wf(),
    ensures
        step(pool, operation).wf(),
        step(pool, operation).assets == pool.assets,
        step(pool, operation).liquidity_token == pool.liquidity_token,
{
    match operation {
        Operation::Mint { amount_a, amount_b, min_liquidity } => {
            Pallet::lemma_liquidity_added_wf(pool, amount_a, amount_b, min_liquidity);
        },
        Operation::Burn { liquidity_burned, min_amount_a, min_amount_b } => {
            Pallet::lemma_liquidity_removed_wf(pool, liquidity_burned, min_amount_a, min_amount_b);
        },
        Operation::Swap { asset_in, amount_in, asset_out, min_amount_out } => {
            pool.lemma_swap_wf(asset_in, amount_in, asset_out, min_amount_out);
        },
    }
}

/// Every pool that can be reached is well-formed: whatever requests a newly
/// created pool is given, in whatever order, either both reserves and the
/// share supply are zero or none of them is. The pool keeps its pair and
/// its share token throughout.
pub proof fn lemma_reachable_pools_wf(
    assets: (AssetId, AssetId),
    liquidity_token: AssetId,
    operations: Seq<Operation>,
)
    ensures
        run(LiquidityPool::empty(assets, liquidity_token), operations).wf(),
        run(LiquidityPool::empty(assets, liquidity_token), operations).assets == assets,
        run(LiquidityPool::empty(assets, liquidity_token), operations).liquidity_token
            == liquidity_token,
    decreases operations.len(),
{
    if operations.len() > 0 {
        lemma_reachable_pools_wf(assets, liquidity_token, operations.drop_last());
        lemma_step_keeps_wf(
            run(LiquidityPool::empty(assets, liquidity_token), operations.drop_last()),
            operations.last(),
        );
    }
}

/// Depositing and then burning exactly the shares minted for the deposit
/// pays out no more than was deposited, of either asset: rounding down never
/// creates value.
pub proof fn lemma_deposit_then_withdrawal(
    pool: LiquidityPool,
    amount_a: Balance,
    amount_b: Balance,
    min_liquidity: Balance,
    min_amount_a: Balance,
    min_amount_b: Balance,
)
    requires
        pool.wf(),
    ensures
        match Pallet::liquidity_added(Some(pool), amount_a, amount_b, min_liquidity) {
            Ok((funded, liquidity_minted)) => match Pallet::liquidity_removed(
                Some(funded),
                liquidity_minted,
                min_amount_a,
                min_amount_b,
            ) {
                Ok((_, amounts_out)) => amounts_out.0 <= amount_a && amounts_out.1 <= amount_b,
                Err(_) => true,
            },
            Err(_) => true,
        },
{
    if let Ok((funded, liquidity_minted)) = Pallet::liquidity_added(
        Some(pool),
        amount_a,
        amount_b,
        min_liquidity,
    ) {
        if Pallet::liquidity_removed(Some(funded), liquidity_minted, min_amount_a, min_amount_b)
            is Ok {
            let minted = liquidity_minted as int;
            let total = pool.total_liquidity as int;
            if total == 0 {
                Pallet::lemma_geometric_mean_positive(amount_a, amount_b);
                vstd::arithmetic::div_mod::lemma_div_multiples_vanish(amount_a as int, minted);
                vstd::arithmetic::div_mod::lemma_div_multiples_vanish(amount_b as int, minted);
            } else {
                lemma_share_of_deposit(minted, total, pool.reserves.0 as int, amount_a as int);
                lemma_share_of_deposit(minted, total, pool.reserves.1 as int, amount_b as int);
            }
        }
    }
}

/// Shares minted at no more than the rate of the pool buy back no more
/// than was paid for them.
proof fn lemma_share_of_deposit(minted: int, total: int, reserve: int, amount: int)
    requires
        0 < minted,
        0 < total,
        0 < reserve,
        0 <= amount,
        minted <= amount * total / reserve,
    ensures
        minted * (reserve + amount) / (total + minted) <= amount,
{
    lemma_floor_div_bounds(amount * total, reserve);
    assert(minted * (reserve + amount) <= (total + minted) * amount) by (nonlinear_arith)
        requires
            0 < reserve,
            minted <= amount * total / reserve,
            reserve * (amount * total / reserve) <= amount * total,
    ;
    lemma_floor_div_le(minted * (reserve + amount), total + minted, amount);
}

/// A withdrawal of more shares than the pool has issued is rejected.
pub proof fn lemma_withdrawal_beyond_supply_rejected(
    pool: LiquidityPool,
    liquidity_burned: Balance,
    min_amount_a: Balance,
    min_amount_b: Balance,
)
    requires
        liquidity_burned > pool.total_liquidity,
    ensures
        Pallet::liquidity_removed(Some(pool), liquidity_burned, min_amount_a, min_amount_b) is Err,
        forall|amounts_out: (Balance, Balance)|
            pool.burned(liquidity_burned, amounts_out) is Err,
{
}

/// A deposit that would push a reserve past the largest balance is rejected
/// for that reason, once its amounts are not zero, its shares can be
/// computed and they reach the caller's minimum.
pub proof fn lemma_deposit_beyond_maximum_rejected(
    pool: LiquidityPool,
    amount_a: Balance,
    amount_b: Balance,
    min_liquidity: Balance,
)
    requires
        pool.reserves.0 + amount_a > Balance::MAX || pool.reserves.1 + amount_b > Balance::MAX,
    ensures
        forall|liquidity_minted: Balance|
            pool.minted((amount_a, amount_b), liquidity_minted) == Err::<LiquidityPool, Error>(
                Error::ReserveOverflow,
            ),
        Pallet::liquidity_minted((amount_a, amount_b), pool.reserves, pool.total_liquidity)
            matches Ok(liquidity_minted) ==> liquidity_minted >= min_liquidity
            ==> Pallet::liquidity_added(Some(pool), amount_a, amount_b, min_liquidity) == Err::<
            (LiquidityPool, Balance),
            Error,
        >(Error::ReserveOverflow),
{
}

} // verus!
