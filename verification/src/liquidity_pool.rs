//! The record of one trading pair and the three transitions on it.

use crate::error::{AssetId, Balance, Error};
use crate::math::{
    lemma_floor_div_bounds, lemma_floor_div_lt, mul_floor_per_thousand, per_thousand_floor,
};
use vstd::prelude::*;

verus! {

/// The fee kept from every amount handed in for a swap, in parts per
/// thousand.
pub const SWAP_FEE_PER_THOUSAND: u32 = 3;

/// The fee kept from `amount_in`: three parts per thousand, rounded down.
pub open spec fn swap_fee(amount_in: Balance) -> int {
    per_thousand_floor(SWAP_FEE_PER_THOUSAND as int, amount_in as int)
}

/// What is left of `amount_in` once the fee is kept.
pub open spec fn amount_after_fee(amount_in: Balance) -> int {
    amount_in - swap_fee(amount_in)
}

/// The reserves of one trading pair and the supply of its liquidity shares.
///
/// `reserves` is aligned with `assets`: `reserves.0` is held in `assets.0`.
/// The pair is ordered, so `(a, b)` and `(b, a)` name different pools.
#[derive(Clone, Copy, Debug, PartialEq, Eq)]
pub struct LiquidityPool {
    pub assets: (AssetId, AssetId),
    pub reserves: (Balance, Balance),
    pub total_liquidity: Balance,
    pub liquidity_token: AssetId,
}

impl LiquidityPool {
    /// A pool is either empty on both sides with no shares issued, or funded
    /// on both sides with shares issued: never in between.
    pub open spec fn wf(self) -> bool {
        &&& self.reserves.0 == 0 <==> self.reserves.1 == 0
        &&& self.reserves.1 == 0 <==> self.total_liquidity == 0
    }

    /// The product of the two reserves, which a swap never lowers.
    pub open spec fn reserve_product(self) -> int {
        self.reserves.0 * self.reserves.1
    }

    /// The pool of a pair before its first deposit.
    pub open spec fn empty(assets: (AssetId, AssetId), liquidity_token: AssetId) -> LiquidityPool {
        LiquidityPool { assets, reserves: (0, 0), total_liquidity: 0, liquidity_token }
    }

    /// The pool after `amounts` were added to the reserves and
    /// `liquidity_minted` to the share supply, or the reason why they cannot
    /// be added.
    pub open spec fn minted(
        self,
        amounts: (Balance, Balance),
        liquidity_minted: Balance,
    ) -> Result<LiquidityPool, Error> {
        if self.reserves.0 + amounts.0 > Balance::MAX || self.reserves.1 + amounts.1
            > Balance::MAX {
            Err(Error::ReserveOverflow)
        } else if self.total_liquidity + liquidity_minted > Balance::MAX {
            Err(Error::LiquidityOverflow)
        } else {
            Ok(
                LiquidityPool {
                    reserves: (
                        (self.reserves.0 + amounts.0) as Balance,
                        (self.reserves.1 + amounts.1) as Balance,
                    ),
                    total_liquidity: (self.total_liquidity + liquidity_minted) as Balance,
                    ..self
                },
            )
        }
    }

    /// The pool after `amounts_out` were taken from the reserves and
    /// `liquidity_burned` from the share supply, or the reason why they
    /// cannot be taken.
    pub open spec fn burned(
        self,
        liquidity_burned: Balance,
        amounts_out: (Balance, Balance),
    ) -> Result<LiquidityPool, Error> {
        if self.reserves.0 < amounts_out.0 || self.reserves.1 < amounts_out.1 {
            Err(Error::InsufficientReserves)
        } else if self.total_liquidity < liquidity_burned {
            Err(Error::InsufficientLiquidity)
        } else {
            Ok(
                LiquidityPool {
                    reserves: (
                        (self.reserves.0 - amounts_out.0) as Balance,
                        (self.reserves.1 - amounts_out.1) as Balance,
                    ),
                    total_liquidity: (self.total_liquidity - liquidity_burned) as Balance,
                    ..self
                },
            )
        }
    }

    /// What a swap pays out for `amount_in` from reserves `reserve_in` and
    /// `reserve_out`, by the constant-product rule with the fee taken from
    /// the amount handed in, rounded down; or the reason why it pays nothing.
    pub open spec fn amount_out(amount_in: Balance, reserve_in: Balance, reserve_out: Balance)
        -> Result<Balance, Error> {
        let after_fee = amount_after_fee(amount_in);
        if reserve_in == 0 || reserve_out == 0 {
            Err(Error::InsufficientLiquidity)
        } else if after_fee * reserve_out > Balance::MAX || reserve_in + after_fee > Balance::MAX {
            Err(Error::ArithmeticOverflow)
        } else {
            Ok((after_fee * reserve_out / (reserve_in + after_fee)) as Balance)
        }
    }

    /// Whether a swap that hands in `asset_in` pays into the first reserve.
    /// Where both assets of the pair are `asset_in`, it does.
    pub open spec fn pays_into_first(self, asset_in: AssetId) -> bool {
        self.assets.0 == asset_in
    }

    /// The reserve that a swap handing in `asset_in` pays into.
    pub open spec fn reserve_in(self, asset_in: AssetId) -> Balance {
        if self.pays_into_first(asset_in) {
            self.reserves.0
        } else {
            self.reserves.1
        }
    }

    /// The reserve that a swap handing in `asset_in` is paid from: the other
    /// one.
    pub open spec fn reserve_out(self, asset_in: AssetId) -> Balance {
        if self.pays_into_first(asset_in) {
            self.reserves.1
        } else {
            self.reserves.0
        }
    }

    /// The pool after a swap, with the amount paid out, or the reason why
    /// the swap is rejected.
    pub open spec fn swapped(
        self,
        asset_in: AssetId,
        amount_in: Balance,
        asset_out: AssetId,
        min_amount_out: Balance,
    ) -> Result<(LiquidityPool, Balance), Error> {
        if self.assets.0 != asset_in && self.assets.1 != asset_in {
            Err(Error::InvalidAssetIn)
        } else if self.assets.0 != asset_out && self.assets.1 != asset_out {
            Err(Error::InvalidAssetOut)
        } else {
            let reserve_in = self.reserve_in(asset_in);
            let reserve_out = self.reserve_out(asset_in);
            match Self::amount_out(amount_in, reserve_in, reserve_out) {
                Err(e) => Err(e),
                Ok(amount_out) => {
                    if amount_out < min_amount_out {
                        Err(Error::InsufficientAmountOut)
                    } else if reserve_in + amount_in > Balance::MAX {
                        Err(Error::ReserveOverflow)
                    } else {
                        let paid_in = (reserve_in + amount_in) as Balance;
                        let paid_out = (reserve_out - amount_out) as Balance;
                        Ok(
                            (
                                LiquidityPool {
                                    reserves: if self.pays_into_first(asset_in) {
                                        (paid_in, paid_out)
                                    } else {
                                        (paid_out, paid_in)
                                    },
                                    ..self
                                },
                                amount_out,
                            ),
                        )
                    }
                },
            }
        }
    }

    /// Creates the pool of a pair, with nothing in it.
    pub fn new(assets: (AssetId, AssetId), liquidity_token: AssetId) -> (pool: LiquidityPool)
        ensures
            pool == Self::empty(assets, liquidity_token),
            pool.wf(),
    {
        LiquidityPool { assets, reserves: (0, 0), total_liquidity: 0, liquidity_token }
    }

    /// Adds a deposit to the reserves and the shares minted for it to the
    /// share supply. Either all three sums fit and are stored, or the pool
    /// stays as it was.
    pub fn mint(&mut self, amounts: (Balance, Balance), liquidity_minted: Balance) -> (res: Result<
        (),
        Error,
    >)
        ensures
            res matches Ok(_) ==> old(self).minted(amounts, liquidity_minted) == Ok::<
                LiquidityPool,
                Error,
            >(*final(self)),
            res matches Err(e) ==> old(self).minted(amounts, liquidity_minted) == Err::<
                LiquidityPool,
                Error,
            >(e) && *final(self) == *old(self),
    {
        let reserve_a: Balance = match self.reserves.0.checked_add(amounts.0) {
            Some(sum) => sum,
            None => return Err(Error::ReserveOverflow),
        };
        let reserve_b: Balance = match self.reserves.1.checked_add(amounts.1) {
            Some(sum) => sum,
            None => return Err(Error::ReserveOverflow),
        };
        let total_liquidity: Balance = match self.total_liquidity.checked_add(liquidity_minted) {
            Some(sum) => sum,
            None => return Err(Error::LiquidityOverflow),
        };
        self.reserves = (reserve_a, reserve_b);
        self.total_liquidity = total_liquidity;
        Ok(())
    }

    /// Takes a withdrawal from the reserves and the shares burned for it
    /// from the share supply. Either all three differences exist and are
    /// stored, or the pool stays as it was.
    pub fn burn(&mut self, liquidity_burned: Balance, amounts_out: (Balance, Balance)) -> (res:
        Result<(), Error>)
        ensures
            res matches Ok(_) ==> old(self).burned(liquidity_burned, amounts_out) == Ok::<
                LiquidityPool,
                Error,
            >(*final(self)),
            res matches Err(e) ==> old(self).burned(liquidity_burned, amounts_out) == Err::<
                LiquidityPool,
                Error,
            >(e) && *final(self) == *old(self),
    {
        let reserve_a: Balance = match self.reserves.0.checked_sub(amounts_out.0) {
            Some(rest) => rest,
            None => return Err(Error::InsufficientReserves),
        };
        let reserve_b: Balance = match self.reserves.1.checked_sub(amounts_out.1) {
            Some(rest) => rest,
            None => return Err(Error::InsufficientReserves),
        };
        let total_liquidity: Balance = match self.total_liquidity.checked_sub(liquidity_burned) {
            Some(rest) => rest,
            None => return Err(Error::InsufficientLiquidity),
        };
        self.reserves = (reserve_a, reserve_b);
        self.total_liquidity = total_liquidity;
        Ok(())
    }

    /// Exchanges `amount_in` of `asset_in` for the other asset of the pair.
    ///
    /// Both assets must belong to the pair. The amount paid out follows
    /// from the reserves by [`Self::get_amount_out`] and must reach
    /// `min_amount_out`. Either both reserves are updated, or the pool stays
    /// as it was. The share supply does not change.
    pub fn swap(
        &mut self,
        asset_in: AssetId,
        amount_in: Balance,
        asset_out: AssetId,
        min_amount_out: Balance,
    ) -> (res: Result<Balance, Error>)
        ensures
            res matches Ok(amount_out) ==> old(self).swapped(
                asset_in,
                amount_in,
                asset_out,
                min_amount_out,
            ) == Ok::<(LiquidityPool, Balance), Error>((*final(self), amount_out)),
            res matches Err(e) ==> old(self).swapped(asset_in, amount_in, asset_out, min_amount_out)
                == Err::<(LiquidityPool, Balance), Error>(e) && *final(self) == *old(self),
            old(self).wf() ==> final(self).wf(),
            final(self).reserve_product() >= old(self).reserve_product(),
            res is Ok && swap_fee(amount_in) > 0 ==> final(self).reserve_product() > old(
                self,
            ).reserve_product(),
    {
        proof {
            old(self).lemma_swap_product(asset_in, amount_in, asset_out, min_amount_out);
            if old(self).wf() {
                old(self).lemma_swap_wf(asset_in, amount_in, asset_out, min_amount_out);
            }
        }
        if !(self.assets.0 == asset_in || self.assets.1 == asset_in) {
            return Err(Error::InvalidAssetIn);
        }
        if !(self.assets.0 == asset_out || self.assets.1 == asset_out) {
            return Err(Error::InvalidAssetOut);
        }
        let first: bool = self.assets.0 == asset_in;
        let (reserve_in, reserve_out): (Balance, Balance) = if first {
            (self.reserves.0, self.reserves.1)
        } else {
            (self.reserves.1, self.reserves.0)
        };
        let amount_out: Balance = match Self::get_amount_out(amount_in, reserve_in, reserve_out) {
            Ok(amount) => amount,
            Err(e) => return Err(e),
        };
        if amount_out < min_amount_out {
            return Err(Error::InsufficientAmountOut);
        }
        proof {
            Self::lemma_amount_out_below_reserve(amount_in, reserve_in, reserve_out);
        }
        let paid_in: Balance = match reserve_in.checked_add(amount_in) {
            Some(sum) => sum,
            None => return Err(Error::ReserveOverflow),
        };
        let paid_out: Balance = match reserve_out.checked_sub(amount_out) {
            Some(rest) => rest,
            None => return Err(Error::InsufficientReserves),
        };
        self.reserves = if first {
            (paid_in, paid_out)
        } else {
            (paid_out, paid_in)
        };
        Ok(amount_out)
    }

    /// What a swap pays out for `amount_in`, given the reserve it pays into
    /// and the reserve it is paid from.
    ///
    /// Three parts per thousand of `amount_in`, rounded down, are kept as
    /// the fee. With `x` the rest, the swap pays
    /// `x * reserve_out / (reserve_in + x)`, rounded down.
    pub fn get_amount_out(amount_in: Balance, reserve_in: Balance, reserve_out: Balance) -> (res:
        Result<Balance, Error>)
        ensures
            res == Self::amount_out(amount_in, reserve_in, reserve_out),
    {
        if reserve_in == 0 || reserve_out == 0 {
            return Err(Error::InsufficientLiquidity);
        }
        let fee: Balance = mul_floor_per_thousand(SWAP_FEE_PER_THOUSAND, amount_in);
        let after_fee: Balance = match amount_in.checked_sub(fee) {
            Some(rest) => rest,
            None => return Err(Error::ArithmeticOverflow),
        };
        let numerator: Balance = match after_fee.checked_mul(reserve_out) {
            Some(product) => product,
            None => return Err(Error::ArithmeticOverflow),
        };
        let denominator: Balance = match reserve_in.checked_add(after_fee) {
            Some(sum) => sum,
            None => return Err(Error::ArithmeticOverflow),
        };
        match numerator.checked_div(denominator) {
            Some(quotient) => Ok(quotient),
            None => Err(Error::DivisionByZero),
        }
    }

    /// A swap never pays out a whole reserve: what `amount_out` grants is
    /// less than `reserve_out`.
    pub proof fn lemma_amount_out_below_reserve(
        amount_in: Balance,
        reserve_in: Balance,
        reserve_out: Balance,
    )
        ensures
            Self::amount_out(amount_in, reserve_in, reserve_out) matches Ok(amount_out)
                ==> amount_out < reserve_out,
            0 <= swap_fee(amount_in) <= amount_in,
    {
        let after_fee = amount_after_fee(amount_in);
        if Self::amount_out(amount_in, reserve_in, reserve_out) is Ok {
            assert(after_fee * reserve_out < (reserve_in + after_fee) * reserve_out)
                by (nonlinear_arith)
                requires
                    0 < reserve_in,
                    0 < reserve_out,
                    0 <= after_fee,
            ;
            lemma_floor_div_lt(
                after_fee * reserve_out,
                reserve_in + after_fee,
                reserve_out as int,
            );
        }
    }

    /// The constant-product rule: no swap lowers the product of the
    /// reserves, and one that keeps a fee raises it.
    pub proof fn lemma_swap_product(
        self,
        asset_in: AssetId,
        amount_in: Balance,
        asset_out: AssetId,
        min_amount_out: Balance,
    )
        ensures
            self.swapped(asset_in, amount_in, asset_out, min_amount_out) matches Ok((after, _)) ==> {
                &&& after.reserve_product() >= self.reserve_product()
                &&& swap_fee(amount_in) > 0 ==> after.reserve_product() > self.reserve_product()
            },
    {
        if let Ok((after, amount_out)) = self.swapped(
            asset_in,
            amount_in,
            asset_out,
            min_amount_out,
        ) {
            let reserve_in = self.reserve_in(asset_in) as int;
            let reserve_out = self.reserve_out(asset_in) as int;
            let fee = swap_fee(amount_in);
            let after_fee = amount_after_fee(amount_in);
            let out = amount_out as int;
            let paid_in = reserve_in + amount_in;
            let paid_out = reserve_out - out;
            Self::lemma_amount_out_below_reserve(
                amount_in,
                self.reserve_in(asset_in),
                self.reserve_out(asset_in),
            );
            lemma_floor_div_bounds(after_fee * reserve_out, reserve_in + after_fee);
            assert(paid_in * paid_out >= reserve_in * reserve_out && (fee > 0 ==> paid_in
                * paid_out > reserve_in * reserve_out)) by (nonlinear_arith)
                requires
                    0 <= fee,
                    0 <= after_fee,
                    0 < reserve_in,
                    0 <= out < reserve_out,
                    paid_in == reserve_in + after_fee + fee,
                    paid_out == reserve_out - out,
                    (reserve_in + after_fee) * out <= after_fee * reserve_out,
            ;
            if self.pays_into_first(asset_in) {
                assert(after.reserve_product() == paid_in * paid_out);
                assert(self.reserve_product() == reserve_in * reserve_out);
            } else {
                assert(after.reserve_product() == paid_in * paid_out) by (nonlinear_arith)
                    requires
                        after.reserve_product() == paid_out * paid_in,
                ;
                assert(self.reserve_product() == reserve_in * reserve_out) by (nonlinear_arith)
                    requires
                        self.reserve_product() == reserve_out * reserve_in,
                ;
            }
        }
    }

    /// A swap leaves a well-formed pool well-formed: it takes less than the
    /// whole of a reserve and does not touch the share supply.
    pub proof fn lemma_swap_wf(
        self,
        asset_in: AssetId,
        amount_in: Balance,
        asset_out: AssetId,
        min_amount_out: Balance,
    )
        requires
            self.wf(),
        ensures
            self.swapped(asset_in, amount_in, asset_out, min_amount_out) matches Ok((after, _))
                ==> after.wf(),
    {
        Self::lemma_amount_out_below_reserve(
            amount_in,
            self.reserve_in(asset_in),
            self.reserve_out(asset_in),
        );
    }
}

} // verus!
