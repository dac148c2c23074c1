use pool::errors::PoolError;
use pool::events::PoolCreatedEvent;
use pool::instructions::initialize_pool::PoolKeys;
use pool::keys::Pubkey;
use pool::math::tick_to_sqrt_price;
use pool::state::{FeeTier, PoolConfig, RewardInfo, WhirlpoolBumps};
use pool::{initialize_config, initialize_fee_tier, initialize_pool};

fn key(n: u8) -> Pubkey {
    Pubkey::new_from_array([n; 32])
}

fn keys(mint_a: Pubkey, mint_b: Pubkey) -> PoolKeys {
    PoolKeys {
        pool: key(9),
        config: key(10),
        fee_tier: key(11),
        token_mint_a: mint_a,
        token_mint_b: mint_b,
        token_vault_a: key(3),
        token_vault_b: key(4),
    }
}

fn config() -> PoolConfig {
    initialize_config(255, key(20), key(21), key(22), 1_000).unwrap()
}

fn tier() -> FeeTier {
    initialize_fee_tier(254, key(10), 8, 3_000).unwrap()
}

const BUMPS: WhirlpoolBumps = WhirlpoolBumps { pool_bump: 7 };

#[test]
fn config_holds_what_it_is_given() {
    assert_eq!(
        initialize_config(255, key(20), key(21), key(22), 10_000),
        Ok(PoolConfig {
            bump: 255,
            fee_authority: key(20),
            collect_protocol_fees_authority: key(21),
            reward_emissions_super_authority: key(22),
            default_protocol_fee_rate: 10_000,
        })
    );
}

#[test]
fn config_refuses_a_protocol_fee_rate_above_the_maximum() {
    assert_eq!(
        initialize_config(255, key(20), key(21), key(22), 10_001),
        Err(PoolError::ProtocolFeeRateMaxExceeded)
    );
    assert_eq!(
        initialize_config(0, key(0), key(0), key(0), u16::MAX),
        Err(PoolError::ProtocolFeeRateMaxExceeded)
    );
}

#[test]
fn fee_tier_holds_what_it_is_given() {
    assert_eq!(
        initialize_fee_tier(1, key(10), 100, 10_000),
        Ok(FeeTier { bump: 1, config: key(10), tick_spacing: 100, default_fee_rate: 10_000 })
    );
    assert_eq!(
        initialize_fee_tier(1, key(10), 1, 0),
        Ok(FeeTier { bump: 1, config: key(10), tick_spacing: 1, default_fee_rate: 0 })
    );
}

#[test]
fn fee_tier_refuses_a_spacing_outside_its_limits() {
    assert_eq!(initialize_fee_tier(1, key(10), 0, 3_000), Err(PoolError::InvalidTickSpacing));
    assert_eq!(initialize_fee_tier(1, key(10), 101, 3_000), Err(PoolError::InvalidTickSpacing));
    assert_eq!(initialize_fee_tier(1, key(10), 0, 10_001), Err(PoolError::InvalidTickSpacing));
}

#[test]
fn fee_tier_refuses_a_fee_rate_above_the_maximum() {
    assert_eq!(initialize_fee_tier(1, key(10), 8, 10_001), Err(PoolError::FeeRateMaxExceeded));
}

#[test]
fn pool_takes_the_default_rates_and_reports_its_creation() {
    let price = tick_to_sqrt_price(-5000).unwrap();
    let (pool, event) =
        initialize_pool(BUMPS, &keys(key(1), key(2)), &config(), &tier(), 8, price).unwrap();
    assert_eq!(pool.bump, 7);
    assert_eq!(pool.config, key(10));
    assert_eq!(pool.fee_tier, key(11));
    assert_eq!(pool.token_mint_a, key(1));
    assert_eq!(pool.token_mint_b, key(2));
    assert_eq!(pool.token_vault_a, key(3));
    assert_eq!(pool.token_vault_b, key(4));
    assert_eq!(pool.fee_rate, 3_000);
    assert_eq!(pool.protocol_fee_rate, 1_000);
    assert_eq!(pool.tick_spacing, 8);
    assert_eq!(pool.sqrt_price, price);
    assert_eq!(pool.tick_current_index, -5000);
    assert_eq!(pool.liquidity, 0);
    assert_eq!((pool.protocol_fee_owed_a, pool.protocol_fee_owed_b), (0, 0));
    assert_eq!(pool.reward_infos, [RewardInfo::new(); 3]);
    assert_eq!(
        event,
        PoolCreatedEvent {
            pool_id: key(9),
            token_mint_a: key(1),
            token_mint_b: key(2),
            tick_spacing: 8,
            initial_sqrt_price: price,
        }
    );
}

#[test]
fn pool_between_two_ticks_stands_in_the_lower_one() {
    let price = tick_to_sqrt_price(-5000).unwrap() + 12_345;
    let (pool, _) =
        initialize_pool(BUMPS, &keys(key(1), key(2)), &config(), &tier(), 8, price).unwrap();
    assert_eq!(pool.tick_current_index, -5000);
    let (pool, _) = initialize_pool(
        BUMPS,
        &keys(key(1), key(2)),
        &config(),
        &tier(),
        8,
        18_446_744_073_709_551_615,
    )
    .unwrap();
    assert_eq!(pool.tick_current_index, -1);
}

#[test]
fn pool_refuses_mints_out_of_order() {
    let price = tick_to_sqrt_price(-5000).unwrap();
    assert_eq!(
        initialize_pool(BUMPS, &keys(key(2), key(1)), &config(), &tier(), 8, price).unwrap_err(),
        PoolError::InvalidTokenMintOrder
    );
    assert_eq!(
        initialize_pool(BUMPS, &keys(key(1), key(1)), &config(), &tier(), 8, price).unwrap_err(),
        PoolError::InvalidTokenMintOrder
    );
    // the order of the mints is looked at before the price
    assert_eq!(
        initialize_pool(BUMPS, &keys(key(2), key(1)), &config(), &tier(), 8, 0).unwrap_err(),
        PoolError::InvalidTokenMintOrder
    );
}

#[test]
fn pool_refuses_a_price_out_of_bounds() {
    for price in [0u128, 1u128 << 64, (1u128 << 64) + 1, u128::MAX] {
        assert_eq!(
            initialize_pool(BUMPS, &keys(key(1), key(2)), &config(), &tier(), 8, price)
                .unwrap_err(),
            PoolError::SqrtPriceOutOfBounds
        );
    }
    for price in [1u128, 4_295_048_633, 4_295_048_634, 18_446_744_073_709_551_615] {
        let (pool, _) =
            initialize_pool(BUMPS, &keys(key(1), key(2)), &config(), &tier(), 8, price).unwrap();
        assert_eq!(pool.sqrt_price, price);
    }
}

#[test]
fn pool_refuses_a_spacing_that_is_not_that_of_its_fee_tier() {
    let price = tick_to_sqrt_price(-5000).unwrap();
    assert_eq!(
        initialize_pool(BUMPS, &keys(key(1), key(2)), &config(), &tier(), 16, price).unwrap_err(),
        PoolError::InvalidTickSpacing
    );
    let mut broken = tier();
    broken.tick_spacing = 0;
    assert_eq!(
        initialize_pool(BUMPS, &keys(key(1), key(2)), &config(), &broken, 0, price).unwrap_err(),
        PoolError::InvalidTickSpacing
    );
}

#[test]
fn pool_refuses_default_rates_above_their_maxima() {
    let price = tick_to_sqrt_price(-5000).unwrap();
    let mut high_tier = tier();
    high_tier.default_fee_rate = 10_001;
    assert_eq!(
        initialize_pool(BUMPS, &keys(key(1), key(2)), &config(), &high_tier, 8, price)
            .unwrap_err(),
        PoolError::FeeRateMaxExceeded
    );
    let mut high_config = config();
    high_config.default_protocol_fee_rate = 10_001;
    assert_eq!(
        initialize_pool(BUMPS, &keys(key(1), key(2)), &high_config, &tier(), 8, price)
            .unwrap_err(),
        PoolError::ProtocolFeeRateMaxExceeded
    );
}

#[test]
fn every_error_has_its_text() {
    assert_eq!(PoolError::InvalidTokenMintOrder.message(), "Invalid token mint order");
    assert_eq!(PoolError::SqrtPriceOutOfBounds.message(), "Square root price out of bounds");
    assert_eq!(PoolError::InvalidTickIndex.message(), "Invalid tick index");
    assert_eq!(PoolError::ClosePositionNotEmpty.message(), "Position not empty");
    assert_eq!(PoolError::ZeroTradableAmount.message(), "Zero tradable amount");
    assert_eq!(PoolError::LiquidityOverflow.message(), "Liquidity overflow");
    assert_eq!(PoolError::SameTickRangeNotAllowed.message(), "Same tick range not allowed");
    assert_eq!(
        PoolError::InvalidSqrtPriceLimitDirection.message(),
        "Invalid sqrt price limit direction"
    );
}
