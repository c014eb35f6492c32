use pallet_dex::{Balance, Error, LiquidityPool, Pallet};

fn funded(reserve_a: Balance, reserve_b: Balance, total_liquidity: Balance) -> LiquidityPool {
    LiquidityPool { assets: (1, 2), reserves: (reserve_a, reserve_b), total_liquidity, liquidity_token: 9 }
}

fn balanced(pool: &LiquidityPool) -> bool {
    (pool.reserves.0 == 0) == (pool.reserves.1 == 0)
        && (pool.reserves.1 == 0) == (pool.total_liquidity == 0)
}

#[test]
fn amount_out_keeps_the_fee() {
    assert_eq!(LiquidityPool::get_amount_out(1000, 1000, 1000), Ok(499));
}

#[test]
fn amount_out_small_input_pays_no_fee() {
    assert_eq!(LiquidityPool::get_amount_out(100, 1000, 1000), Ok(90));
    assert_eq!(LiquidityPool::get_amount_out(100, 100, 1000), Ok(500));
    assert_eq!(LiquidityPool::get_amount_out(333, 333, 1000), Ok(500));
}

#[test]
fn amount_out_fee_starts_at_334() {
    assert_eq!(LiquidityPool::get_amount_out(334, 333, 1000), Ok(500));
    assert_eq!(LiquidityPool::get_amount_out(334, 334, 1000), Ok(499));
    assert_eq!(LiquidityPool::get_amount_out(1000, 997, 1000), Ok(500));
    assert_eq!(LiquidityPool::get_amount_out(2000, 1994, 1000), Ok(500));
}

#[test]
fn amount_out_of_nothing_is_nothing() {
    assert_eq!(LiquidityPool::get_amount_out(0, 1000, 1000), Ok(0));
}

#[test]
fn amount_out_needs_both_reserves() {
    assert_eq!(LiquidityPool::get_amount_out(10, 0, 1000), Err(Error::InsufficientLiquidity));
    assert_eq!(LiquidityPool::get_amount_out(10, 1000, 0), Err(Error::InsufficientLiquidity));
    assert_eq!(LiquidityPool::get_amount_out(10, 0, 0), Err(Error::InsufficientLiquidity));
}

#[test]
fn amount_out_overflow_is_rejected() {
    assert_eq!(
        LiquidityPool::get_amount_out(Balance::MAX, 1, 2),
        Err(Error::ArithmeticOverflow)
    );
    assert_eq!(
        LiquidityPool::get_amount_out(1000, Balance::MAX, 1),
        Err(Error::ArithmeticOverflow)
    );
}

#[test]
fn amount_out_of_the_largest_input() {
    let fee: Balance = Balance::MAX / 1000 * 3 + (Balance::MAX % 1000) * 3 / 1000;
    let after_fee: Balance = Balance::MAX - fee;
    assert_eq!(
        LiquidityPool::get_amount_out(Balance::MAX, fee, 1),
        Ok(after_fee / Balance::MAX)
    );
    assert_eq!(LiquidityPool::get_amount_out(Balance::MAX, fee + 1, 1), Err(Error::ArithmeticOverflow));
}

#[test]
fn swap_first_for_second() {
    let mut pool = funded(1000, 1000, 1000);
    assert_eq!(pool.swap(1, 1000, 2, 0), Ok(499));
    assert_eq!(pool, funded(2000, 501, 1000));
}

#[test]
fn swap_second_for_first() {
    let mut pool = funded(1000, 1000, 1000);
    assert_eq!(pool.swap(2, 1000, 1, 499), Ok(499));
    assert_eq!(pool, funded(501, 2000, 1000));
}

#[test]
fn swap_unknown_asset_in_leaves_pool() {
    let mut pool = funded(1000, 1000, 1000);
    assert_eq!(pool.swap(3, 1000, 2, 0), Err(Error::InvalidAssetIn));
    assert_eq!(pool, funded(1000, 1000, 1000));
    assert_eq!(pool.swap(3, 1000, 4, 0), Err(Error::InvalidAssetIn));
    assert_eq!(pool, funded(1000, 1000, 1000));
}

#[test]
fn swap_unknown_asset_out_leaves_pool() {
    let mut pool = funded(1000, 1000, 1000);
    assert_eq!(pool.swap(1, 1000, 3, 0), Err(Error::InvalidAssetOut));
    assert_eq!(pool, funded(1000, 1000, 1000));
}

#[test]
fn swap_below_minimum_leaves_pool() {
    let mut pool = funded(1000, 1000, 1000);
    assert_eq!(pool.swap(1, 1000, 2, 500), Err(Error::InsufficientAmountOut));
    assert_eq!(pool, funded(1000, 1000, 1000));
}

#[test]
fn swap_on_empty_pool_is_rejected() {
    let mut pool = LiquidityPool::new((1, 2), 9);
    assert_eq!(pool.swap(1, 1000, 2, 0), Err(Error::InsufficientLiquidity));
    assert_eq!(pool, LiquidityPool::new((1, 2), 9));
}

#[test]
fn swap_past_maximum_reserve_leaves_pool() {
    let mut pool = funded(Balance::MAX - 10, 5, 1000);
    assert_eq!(pool.swap(1, 1000, 2, 0), Err(Error::ArithmeticOverflow));
    assert_eq!(pool, funded(Balance::MAX - 10, 5, 1000));

    let free: Balance = 997;
    let mut pool = funded(Balance::MAX - free, 5, 1000);
    assert_eq!(pool.swap(1, 1000, 2, 0), Err(Error::ReserveOverflow));
    assert_eq!(pool, funded(Balance::MAX - free, 5, 1000));

    let mut pool = funded(5, Balance::MAX - free, 1000);
    assert_eq!(pool.swap(2, 1000, 1, 0), Err(Error::ReserveOverflow));
    assert_eq!(pool, funded(5, Balance::MAX - free, 1000));
}

#[test]
fn swap_same_asset_both_ways_pays_from_the_other_side() {
    let mut pool = funded(1000, 1000, 1000);
    assert_eq!(pool.swap(1, 1000, 1, 0), Ok(499));
    assert_eq!(pool, funded(2000, 501, 1000));
    let mut pool = funded(1000, 1000, 1000);
    assert_eq!(pool.swap(2, 1000, 2, 0), Ok(499));
    assert_eq!(pool, funded(501, 2000, 1000));
}

#[test]
fn swap_in_pool_of_one_asset_pays_into_first() {
    let mut pool = LiquidityPool { assets: (5, 5), reserves: (1000, 1000), total_liquidity: 1000, liquidity_token: 9 };
    assert_eq!(pool.swap(5, 1000, 5, 0), Ok(499));
    assert_eq!(pool.reserves, (2000, 501));
}

#[test]
fn swap_never_lowers_the_product() {
    let cases: [(Balance, Balance, Balance); 6] = [
        (1000, 1000, 1000),
        (1000, 1000, 100),
        (1000, 1000, 1),
        (7, 13, 5),
        (1, 1, 1_000_000),
        (123_456_789, 987, 65_432),
    ];
    for (reserve_a, reserve_b, amount_in) in cases {
        let mut pool = funded(reserve_a, reserve_b, 10);
        let before = pool.reserves.0 * pool.reserves.1;
        pool.swap(1, amount_in, 2, 0).unwrap();
        let after = pool.reserves.0 * pool.reserves.1;
        assert!(after >= before);
        if amount_in * 3 / 1000 > 0 {
            assert!(after > before);
        }
        assert!(balanced(&pool));
    }
}

#[test]
fn swap_product_exact() {
    let mut pool = funded(1000, 1000, 1000);
    pool.swap(1, 1000, 2, 0).unwrap();
    assert_eq!(pool.reserves.0 * pool.reserves.1, 1_002_000);
    let mut pool = funded(100, 100, 100);
    pool.swap(1, 100, 2, 0).unwrap();
    assert_eq!(pool.reserves, (200, 50));
    assert_eq!(pool.reserves.0 * pool.reserves.1, 10_000);
}

#[test]
fn pool_stays_balanced_through_a_history() {
    let mut pool = Pallet::create_liquidity_pool(false, 1, 2, 9).unwrap();
    assert!(balanced(&pool));
    assert!(pool.swap(1, 10, 2, 0).is_err());
    assert!(balanced(&pool));
    let (next, minted) = Pallet::mint_liquidity(Some(pool), 1000, 4000, 0).unwrap();
    assert_eq!(minted, 2000);
    pool = next;
    assert!(balanced(&pool));
    assert_eq!(pool.swap(1, 500, 2, 0), Ok(1331));
    assert_eq!(pool, funded(1500, 2669, 2000));
    assert!(balanced(&pool));
    let (next, minted) = Pallet::mint_liquidity(Some(pool), 150, 300, 0).unwrap();
    assert_eq!(minted, 200);
    pool = next;
    assert_eq!(pool, funded(1650, 2969, 2200));
    let (next, out) = Pallet::burn_liquidity(Some(pool), 1100, 0, 0).unwrap();
    assert_eq!(out, (825, 1484));
    pool = next;
    assert_eq!(pool, funded(825, 1485, 1100));
    assert!(balanced(&pool));
    assert!(Pallet::burn_liquidity(Some(pool), 1101, 0, 0).is_err());
    let (next, out) = Pallet::burn_liquidity(Some(pool), 1100, 0, 0).unwrap();
    assert_eq!(out, (825, 1485));
    pool = next;
    assert_eq!(pool, funded(0, 0, 0));
    assert!(balanced(&pool));
    assert_eq!(pool.assets, (1, 2));
    assert_eq!(pool.liquidity_token, 9);
}
