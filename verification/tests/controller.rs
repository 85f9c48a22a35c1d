use lending_controller::controller::Controller;
use lending_controller::oracle::PriceOracle;
use lending_controller::types::Error;
use lending_controller::types::Event;
use lending_controller::types::PoolAttributes;
use lending_controller::types::PoolAttributesForSeizeCalculation;
use lending_controller::types::PoolAttributesForWithdrawValidation;
use lending_controller::types::PoolSnapshot;

const ONE: u128 = 1_000_000_000_000_000_000;
const HALF: u128 = 500_000_000_000_000_000;

const MANAGER: u128 = 1;
const ORACLE_ID: u128 = 99;
const POOL: u128 = 10;
const UNDERLYING: u128 = 20;
const ACCOUNT: u128 = 50;
const OUTSIDER: u128 = 77;

fn market_snapshot(balance: u128, borrow: u128) -> PoolSnapshot {
    PoolSnapshot {
        pool: POOL,
        underlying: Some(UNDERLYING),
        decimals: 0,
        account_balance: balance,
        account_borrow_balance: borrow,
        exchange_rate: ONE,
        total_borrows: borrow,
        liquidation_threshold: 800_000_000_000_000_000,
    }
}

fn pool_attributes(balance: u128, borrow: u128) -> PoolAttributes {
    PoolAttributes {
        underlying: Some(UNDERLYING),
        decimals: 0,
        account_balance: balance,
        account_borrow_balance: borrow,
        exchange_rate: ONE,
        total_borrows: borrow,
    }
}

/// Market registered with collateral factor 0.5 and oracle price 1.0.
fn setup() -> (Controller, PriceOracle) {
    let mut prices = PriceOracle::new();
    prices.set_fixed_price(UNDERLYING, ONE).unwrap();
    let mut c = Controller::new(Some(MANAGER));
    c.set_price_oracle(MANAGER, ORACLE_ID).unwrap();
    c.support_market_with_collateral_factor_mantissa(MANAGER, POOL, UNDERLYING, HALF, &prices)
        .unwrap();
    (c, prices)
}

#[test]
fn deposit_of_100_yields_surplus_50() {
    let (c, prices) = setup();
    let snaps = vec![market_snapshot(100, 0)];
    let r = c.get_account_liquidity(OUTSIDER, ACCOUNT, &snaps, &prices);
    assert_eq!(r, Ok((50, 0)));
}

#[test]
fn borrow_beyond_surplus_is_rejected() {
    let (c, prices) = setup();
    let snaps = vec![market_snapshot(100, 0)];
    let r = c.borrow_allowed(
        POOL,
        POOL,
        ACCOUNT,
        60,
        Some(pool_attributes(100, 0)),
        &snaps,
        &prices,
    );
    assert_eq!(r, Err(Error::InsufficientLiquidity));
}

#[test]
fn larger_borrow_is_still_rejected() {
    let (c, prices) = setup();
    let snaps = vec![market_snapshot(100, 0)];
    for amount in [60u128, 61, 100, 1_000_000] {
        let r = c.borrow_allowed(
            POOL,
            POOL,
            ACCOUNT,
            amount,
            Some(pool_attributes(100, 0)),
            &snaps,
            &prices,
        );
        assert!(r.is_err());
    }
}

#[test]
fn borrow_within_surplus_is_allowed() {
    let (c, prices) = setup();
    let snaps = vec![market_snapshot(100, 0)];
    let r = c.borrow_allowed(
        POOL,
        POOL,
        ACCOUNT,
        40,
        Some(pool_attributes(100, 0)),
        &snaps,
        &prices,
    );
    assert_eq!(r, Ok(()));

    let after = vec![market_snapshot(100, 40)];
    let r = c.get_account_liquidity(OUTSIDER, ACCOUNT, &after, &prices);
    assert_eq!(r, Ok((10, 0)));
}

#[test]
fn liquidity_pair_has_one_zero_side() {
    let (c, prices) = setup();
    for (balance, borrow) in [(100u128, 0u128), (100, 40), (100, 60), (0, 30), (0, 0)] {
        let snaps = vec![market_snapshot(balance, borrow)];
        let (surplus, shortfall) =
            c.get_account_liquidity(OUTSIDER, ACCOUNT, &snaps, &prices).unwrap();
        assert!(surplus == 0 || shortfall == 0);
    }
}

#[test]
fn unset_price_fails_checks_loudly() {
    let (c, _) = setup();
    let empty_prices = PriceOracle::new();
    let snaps = vec![market_snapshot(100, 0)];
    let attrs = Some(pool_attributes(100, 0));

    let r = c.borrow_allowed(POOL, POOL, ACCOUNT, 1, attrs, &snaps, &empty_prices);
    assert_eq!(r, Err(Error::PriceError));

    let r = c.redeem_allowed(POOL, POOL, ACCOUNT, 1, attrs, &snaps, &empty_prices);
    assert_eq!(r, Err(Error::PriceError));

    let r = c.liquidate_borrow_allowed(
        POOL,
        POOL,
        POOL,
        OUTSIDER,
        ACCOUNT,
        1,
        attrs,
        &snaps,
        &empty_prices,
    );
    assert_eq!(r, Err(Error::PriceError));
}

#[test]
fn zero_price_fails_checks_loudly() {
    let (c, _) = setup();
    let mut prices = PriceOracle::new();
    prices.set_fixed_price(UNDERLYING, 0).unwrap();
    let snaps = vec![market_snapshot(100, 0)];
    let r = c.borrow_allowed(POOL, POOL, ACCOUNT, 1, Some(pool_attributes(100, 0)), &snaps, &prices);
    assert_eq!(r, Err(Error::PriceError));
}

#[test]
fn missing_oracle_fails_checks_loudly() {
    let mut prices = PriceOracle::new();
    prices.set_fixed_price(UNDERLYING, ONE).unwrap();
    let mut c = Controller::new(Some(MANAGER));
    // The market cannot carry a collateral factor without an oracle, so
    // register it bare: the borrow gate still reaches the oracle check.
    c.support_market(MANAGER, POOL, UNDERLYING).unwrap();
    let snaps = vec![market_snapshot(100, 0)];
    let r = c.borrow_allowed(POOL, POOL, ACCOUNT, 1, Some(pool_attributes(100, 0)), &snaps, &prices);
    assert_eq!(r, Err(Error::OracleIsNotSet));
}

#[test]
fn repay_above_close_factor_bound_is_rejected() {
    let (mut c, prices) = setup();
    c.set_close_factor_mantissa(MANAGER, HALF).unwrap();
    // Collateral value 50, debt 60: shortfall 10, so the borrower is
    // liquidatable; at most 0.5 x 60 = 30 may be repaid at once.
    let snaps = vec![market_snapshot(100, 60)];
    let attrs = Some(pool_attributes(100, 60));
    let r = c.liquidate_borrow_allowed(
        POOL, POOL, POOL, OUTSIDER, ACCOUNT, 31, attrs, &snaps, &prices,
    );
    assert_eq!(r, Err(Error::TooMuchRepay));
    let r = c.liquidate_borrow_allowed(
        POOL, POOL, POOL, OUTSIDER, ACCOUNT, 30, attrs, &snaps, &prices,
    );
    assert_eq!(r, Ok(()));
}

#[test]
fn healthy_borrower_cannot_be_liquidated() {
    let (mut c, prices) = setup();
    c.set_close_factor_mantissa(MANAGER, HALF).unwrap();
    let snaps = vec![market_snapshot(100, 40)];
    let attrs = Some(pool_attributes(100, 40));
    let r = c.liquidate_borrow_allowed(
        POOL, POOL, POOL, OUTSIDER, ACCOUNT, 1, attrs, &snaps, &prices,
    );
    assert_eq!(r, Err(Error::InsufficientShortfall));
}

#[test]
fn non_manager_setters_are_rejected_and_change_nothing() {
    let (mut c, prices) = setup();
    let intruder: u128 = 2;
    let events_before = c.events().len();

    assert_eq!(
        c.set_collateral_factor_mantissa(intruder, POOL, HALF, &prices),
        Err(Error::CallerIsNotManager)
    );
    assert_eq!(c.set_close_factor_mantissa(intruder, HALF), Err(Error::CallerIsNotManager));
    assert_eq!(c.set_borrow_cap(intruder, POOL, 5), Err(Error::CallerIsNotManager));
    assert_eq!(c.set_price_oracle(intruder, 3), Err(Error::CallerIsNotManager));
    assert_eq!(c.support_market(intruder, 11, 21), Err(Error::CallerIsNotManager));
    assert_eq!(c.set_mint_guardian_paused(intruder, POOL, true), Err(Error::CallerIsNotManager));
    assert_eq!(c.set_seize_guardian_paused(intruder, true), Err(Error::CallerIsNotManager));

    assert_eq!(c.collateral_factor_mantissa(POOL), Some(HALF));
    assert_eq!(c.close_factor_mantissa(), 0);
    assert_eq!(c.borrow_cap(POOL), Some(0));
    assert_eq!(c.oracle(), Some(ORACLE_ID));
    assert_eq!(c.markets(), vec![POOL]);
    assert_eq!(c.mint_guardian_paused(POOL), Some(false));
    assert!(!c.seize_guardian_paused());
    assert_eq!(c.events().len(), events_before);
}

#[test]
fn setters_without_manager_configured_are_rejected() {
    let mut c = Controller::new(None);
    assert_eq!(c.set_close_factor_mantissa(MANAGER, HALF), Err(Error::ManagerIsNotSet));
}

#[test]
fn collateral_factor_round_trip_records_one_event() {
    let (mut c, prices) = setup();
    let events_before = c.events().len();
    let new_factor: u128 = 600_000_000_000_000_000;
    c.set_collateral_factor_mantissa(MANAGER, POOL, new_factor, &prices).unwrap();
    assert_eq!(c.collateral_factor_mantissa(POOL), Some(new_factor));
    assert_eq!(c.events().len(), events_before + 1);
    assert_eq!(
        c.events()[events_before],
        Event::NewCollateralFactor { pool: POOL, old_value: HALF, new_value: new_factor }
    );
}

#[test]
fn collateral_factor_validation() {
    let (mut c, prices) = setup();
    assert_eq!(
        c.set_collateral_factor_mantissa(MANAGER, POOL, 0, &prices),
        Err(Error::InvalidCollateralFactor)
    );
    assert_eq!(
        c.set_collateral_factor_mantissa(MANAGER, POOL, 900_000_000_000_000_001, &prices),
        Err(Error::InvalidCollateralFactor)
    );
    assert_eq!(
        c.set_collateral_factor_mantissa(MANAGER, 42, HALF, &prices),
        Err(Error::MarketNotListed)
    );
}

#[test]
fn double_registration_is_rejected() {
    let (mut c, _) = setup();
    assert_eq!(c.support_market(MANAGER, POOL, UNDERLYING), Err(Error::MarketAlreadyListed));
}

#[test]
fn pause_flags_gate_their_actions() {
    let (mut c, prices) = setup();
    let snaps = vec![market_snapshot(100, 0)];
    let attrs = Some(pool_attributes(100, 0));

    assert_eq!(c.mint_allowed(POOL, ACCOUNT, 5), Ok(()));
    c.set_mint_guardian_paused(MANAGER, POOL, true).unwrap();
    assert_eq!(c.mint_allowed(POOL, ACCOUNT, 5), Err(Error::MintIsPaused));
    // An unlisted market counts as paused.
    assert_eq!(c.mint_allowed(42, ACCOUNT, 5), Err(Error::MintIsPaused));

    c.set_borrow_guardian_paused(MANAGER, POOL, true).unwrap();
    let r = c.borrow_allowed(POOL, POOL, ACCOUNT, 1, attrs, &snaps, &prices);
    assert_eq!(r, Err(Error::BorrowIsPaused));

    c.set_seize_guardian_paused(MANAGER, true).unwrap();
    assert_eq!(c.seize_allowed(POOL, POOL, OUTSIDER, ACCOUNT, 1), Err(Error::SeizeIsPaused));

    c.set_transfer_guardian_paused(MANAGER, true).unwrap();
    let r = c.transfer_allowed(POOL, POOL, ACCOUNT, OUTSIDER, 1, attrs, &snaps, &prices);
    assert_eq!(r, Err(Error::TransferIsPaused));
}

#[test]
fn seize_requires_listed_markets() {
    let (c, _) = setup();
    assert_eq!(c.seize_allowed(POOL, 42, OUTSIDER, ACCOUNT, 1), Err(Error::MarketNotListed));
    assert_eq!(c.seize_allowed(42, POOL, OUTSIDER, ACCOUNT, 1), Err(Error::MarketNotListed));
    assert_eq!(c.seize_allowed(POOL, POOL, OUTSIDER, ACCOUNT, 1), Ok(()));
}

#[test]
fn borrow_cap_is_enforced() {
    let (mut c, prices) = setup();
    c.set_borrow_cap(MANAGER, POOL, 50).unwrap();
    let snaps = vec![market_snapshot(1000, 0)];

    // Cap smaller than the request.
    let r = c.borrow_allowed(POOL, POOL, ACCOUNT, 60, Some(pool_attributes(1000, 0)), &snaps, &prices);
    assert_eq!(r, Err(Error::BorrowCapReached));

    // Existing borrows plus the request exceed the cap.
    let mut attrs = pool_attributes(1000, 0);
    attrs.total_borrows = 40;
    let r = c.borrow_allowed(POOL, POOL, ACCOUNT, 20, Some(attrs), &snaps, &prices);
    assert_eq!(r, Err(Error::BorrowCapReached));

    // Within the cap.
    let r = c.borrow_allowed(POOL, POOL, ACCOUNT, 10, Some(attrs), &snaps, &prices);
    assert_eq!(r, Ok(()));
}

#[test]
fn missing_attribute_underlying_is_reported() {
    let (c, prices) = setup();
    let snaps = vec![market_snapshot(100, 0)];
    let mut attrs = pool_attributes(100, 0);
    attrs.underlying = None;
    let r = c.borrow_allowed(POOL, POOL, ACCOUNT, 1, Some(attrs), &snaps, &prices);
    assert_eq!(r, Err(Error::UnderlyingIsNotSet));
}

#[test]
fn repay_is_always_allowed() {
    let (c, _) = setup();
    assert_eq!(c.repay_borrow_allowed(POOL, OUTSIDER, ACCOUNT, 123), Ok(()));
}

#[test]
fn oversized_positions_report_overflow() {
    let (c, prices) = setup();
    let mut s = market_snapshot(u128::MAX, 0);
    s.exchange_rate = u128::MAX;
    let snaps = vec![s];
    let r = c.get_account_liquidity(OUTSIDER, ACCOUNT, &snaps, &prices);
    assert_eq!(r, Err(Error::Overflow));
}

#[test]
fn seize_tokens_exact_value() {
    let (mut c, mut prices) = setup();
    let collateral_underlying: u128 = 21;
    prices.set_fixed_price(UNDERLYING, 2 * ONE).unwrap();
    prices.set_fixed_price(collateral_underlying, ONE).unwrap();
    c.set_liquidation_incentive_mantissa(MANAGER, ONE + ONE / 10).unwrap();
    let snaps: Vec<PoolSnapshot> = vec![];
    let borrowed_side =
        Some(PoolAttributesForSeizeCalculation { underlying: Some(UNDERLYING), decimals: 0 });
    let collateral_side = Some(PoolAttributesForSeizeCalculation {
        underlying: Some(collateral_underlying),
        decimals: 0,
    });
    // 100 repaid x 1.1 incentive x price 2 / (price 1 x exchange rate 1).
    let r = c.liquidate_calculate_seize_tokens(
        POOL, POOL, ONE, 100, borrowed_side, collateral_side, &snaps, &prices,
    );
    assert_eq!(r, Ok(220));
}

#[test]
fn seize_tokens_monotonicity_on_samples() {
    let (mut c, mut prices) = setup();
    let collateral_underlying: u128 = 21;
    prices.set_fixed_price(UNDERLYING, 2 * ONE).unwrap();
    c.set_liquidation_incentive_mantissa(MANAGER, ONE + ONE / 10).unwrap();
    let snaps: Vec<PoolSnapshot> = vec![];
    let borrowed_side =
        Some(PoolAttributesForSeizeCalculation { underlying: Some(UNDERLYING), decimals: 0 });
    let collateral_side = Some(PoolAttributesForSeizeCalculation {
        underlying: Some(collateral_underlying),
        decimals: 0,
    });

    prices.set_fixed_price(collateral_underlying, ONE).unwrap();
    let at_100 = c
        .liquidate_calculate_seize_tokens(
            POOL, POOL, ONE, 100, borrowed_side, collateral_side, &snaps, &prices,
        )
        .unwrap();
    let at_200 = c
        .liquidate_calculate_seize_tokens(
            POOL, POOL, ONE, 200, borrowed_side, collateral_side, &snaps, &prices,
        )
        .unwrap();
    assert!(at_100 <= at_200);
    assert_eq!(at_200, 440);

    prices.set_fixed_price(collateral_underlying, 2 * ONE).unwrap();
    let priced_higher = c
        .liquidate_calculate_seize_tokens(
            POOL, POOL, ONE, 100, borrowed_side, collateral_side, &snaps, &prices,
        )
        .unwrap();
    assert!(priced_higher < at_100);
    assert_eq!(priced_higher, 110);
}

#[test]
fn seize_without_price_is_rejected() {
    let (c, prices) = setup();
    let snaps: Vec<PoolSnapshot> = vec![];
    let borrowed_side =
        Some(PoolAttributesForSeizeCalculation { underlying: Some(UNDERLYING), decimals: 0 });
    let unpriced_side =
        Some(PoolAttributesForSeizeCalculation { underlying: Some(33), decimals: 0 });
    let r = c.liquidate_calculate_seize_tokens(
        POOL, POOL, ONE, 100, borrowed_side, unpriced_side, &snaps, &prices,
    );
    assert_eq!(r, Err(Error::PriceError));
}

#[test]
fn account_data_exact_values() {
    let (c, prices) = setup();
    let snaps: Vec<PoolSnapshot> = vec![];
    let attrs = PoolAttributesForWithdrawValidation {
        pool: Some(POOL),
        underlying: Some(UNDERLYING),
        liquidation_threshold: 800_000_000_000_000_000,
        account_balance: 100,
        account_borrow_balance: 40,
    };
    let data = c.calculate_user_account_data(POOL, ACCOUNT, attrs, &snaps, &prices).unwrap();
    assert_eq!(data.total_collateral_in_base_currency, 100);
    assert_eq!(data.total_debt_in_base_currency, 40);
    assert_eq!(data.avg_ltv, HALF);
    assert_eq!(data.avg_liquidation_threshold, 800_000_000_000_000_000);
    assert_eq!(data.health_factor, 2 * ONE);
}

#[test]
fn account_data_without_debt_has_infinite_health() {
    let (c, prices) = setup();
    let snaps: Vec<PoolSnapshot> = vec![];
    let attrs = PoolAttributesForWithdrawValidation {
        pool: Some(POOL),
        underlying: Some(UNDERLYING),
        liquidation_threshold: 800_000_000_000_000_000,
        account_balance: 100,
        account_borrow_balance: 0,
    };
    let data = c.calculate_user_account_data(POOL, ACCOUNT, attrs, &snaps, &prices).unwrap();
    assert_eq!(data.health_factor, u128::MAX);
}

#[test]
fn account_data_without_pool_is_rejected() {
    let (c, prices) = setup();
    let snaps: Vec<PoolSnapshot> = vec![];
    let attrs = PoolAttributesForWithdrawValidation {
        pool: None,
        underlying: Some(UNDERLYING),
        liquidation_threshold: 800_000_000_000_000_000,
        account_balance: 100,
        account_borrow_balance: 0,
    };
    let r = c.calculate_user_account_data(POOL, ACCOUNT, attrs, &snaps, &prices);
    assert_eq!(r, Err(Error::PoolIsNotSet));
}

#[test]
fn balance_decrease_respects_health_factor() {
    let (c, prices) = setup();
    let snaps: Vec<PoolSnapshot> = vec![];
    let attrs = PoolAttributesForWithdrawValidation {
        pool: Some(POOL),
        underlying: Some(UNDERLYING),
        liquidation_threshold: 800_000_000_000_000_000,
        account_balance: 100,
        account_borrow_balance: 40,
    };
    // Health after withdrawing v: (100 - v) x 0.8 / 40, at least 1.0 up to
    // v = 50.
    assert_eq!(c.balance_decrease_allowed(POOL, attrs, ACCOUNT, 50, &snaps, &prices), Ok(true));
    assert_eq!(c.balance_decrease_allowed(POOL, attrs, ACCOUNT, 60, &snaps, &prices), Ok(false));
}

#[test]
fn balance_decrease_with_no_debt_is_free() {
    let (c, prices) = setup();
    let snaps: Vec<PoolSnapshot> = vec![];
    let attrs = PoolAttributesForWithdrawValidation {
        pool: Some(POOL),
        underlying: Some(UNDERLYING),
        liquidation_threshold: 800_000_000_000_000_000,
        account_balance: 100,
        account_borrow_balance: 0,
    };
    assert_eq!(
        c.balance_decrease_allowed(POOL, attrs, ACCOUNT, u128::MAX, &snaps, &prices),
        Ok(true)
    );
}

#[test]
fn balance_decrease_distinguishes_bad_price_from_misconfiguration() {
    let (mut c, mut prices) = setup();
    // A second market carries the account's debt, priced normally.
    let second_pool: u128 = 11;
    let second_underlying: u128 = 21;
    prices.set_fixed_price(second_underlying, ONE).unwrap();
    c.support_market_with_collateral_factor_mantissa(
        MANAGER,
        second_pool,
        second_underlying,
        HALF,
        &prices,
    )
    .unwrap();
    // The withdrawn market's price drops to zero afterwards.
    prices.set_fixed_price(UNDERLYING, 0).unwrap();
    let mut debt_market = market_snapshot(0, 40);
    debt_market.pool = second_pool;
    debt_market.underlying = Some(second_underlying);
    let snaps = vec![debt_market];
    let attrs = PoolAttributesForWithdrawValidation {
        pool: Some(POOL),
        underlying: Some(UNDERLYING),
        liquidation_threshold: 800_000_000_000_000_000,
        account_balance: 100,
        account_borrow_balance: 0,
    };
    // The aggregate pass accepts the zero price (the account still owes 40
    // through the second market); the withdrawal check turns the unusable
    // price into a business rejection, not an error.
    let data = c.calculate_user_account_data(POOL, ACCOUNT, attrs, &snaps, &prices).unwrap();
    assert_eq!(data.total_debt_in_base_currency, 40);
    assert_eq!(c.balance_decrease_allowed(POOL, attrs, ACCOUNT, 1, &snaps, &prices), Ok(false));
}

#[test]
fn market_of_underlying_returns_latest_registration() {
    let (mut c, prices) = setup();
    c.support_market_with_collateral_factor_mantissa(MANAGER, 11, UNDERLYING, HALF, &prices)
        .unwrap();
    assert_eq!(c.market_of_underlying(UNDERLYING), Some(11));
    assert_eq!(c.market_of_underlying(42), None);
}

#[test]
fn account_assets_enumeration() {
    let (mut c, mut prices) = setup();
    let second_pool: u128 = 11;
    let second_underlying: u128 = 21;
    prices.set_fixed_price(second_underlying, ONE).unwrap();
    c.support_market_with_collateral_factor_mantissa(
        MANAGER,
        second_pool,
        second_underlying,
        HALF,
        &prices,
    )
    .unwrap();
    let mut other = market_snapshot(0, 7);
    other.pool = second_pool;
    other.underlying = Some(second_underlying);
    let snaps = vec![market_snapshot(100, 0), other];

    // Both markets carry a position.
    assert_eq!(c.account_assets(OUTSIDER, ACCOUNT, &snaps), vec![POOL, second_pool]);
    // The calling pool is excluded.
    assert_eq!(c.account_assets(POOL, ACCOUNT, &snaps), vec![second_pool]);
    // Zero balances drop out.
    let snaps_empty = vec![market_snapshot(0, 0)];
    assert_eq!(c.account_assets(OUTSIDER, ACCOUNT, &snaps_empty), Vec::<u128>::new());
}

#[test]
fn registration_and_pause_events_are_recorded() {
    let (mut c, _) = setup();
    assert_eq!(c.events()[1], Event::MarketListed { pool: POOL });
    let n = c.events().len();
    c.set_borrow_cap(MANAGER, POOL, 5).unwrap();
    assert_eq!(c.events().len(), n + 1);
    assert_eq!(c.events()[n], Event::NewBorrowCap { pool: POOL, new_value: 5 });
}

#[test]
fn hypothetical_query_reports_the_shortfall() {
    let (c, prices) = setup();
    let snaps = vec![market_snapshot(100, 0)];
    let r = c.get_hypothetical_account_liquidity(OUTSIDER, ACCOUNT, POOL, 0, 60, &snaps, &prices);
    assert_eq!(r, Ok((0, 10)));
    let r = c.get_hypothetical_account_liquidity(OUTSIDER, ACCOUNT, POOL, 0, 40, &snaps, &prices);
    assert_eq!(r, Ok((10, 0)));
    // Redeeming 40 shares removes 20 of borrowing power.
    let r = c.get_hypothetical_account_liquidity(OUTSIDER, ACCOUNT, POOL, 40, 0, &snaps, &prices);
    assert_eq!(r, Ok((30, 0)));
}

#[test]
fn transfer_within_liquidity_is_allowed() {
    let (c, prices) = setup();
    let snaps = vec![market_snapshot(100, 0)];
    let r = c.transfer_allowed(
        POOL,
        POOL,
        ACCOUNT,
        OUTSIDER,
        100,
        Some(pool_attributes(100, 0)),
        &snaps,
        &prices,
    );
    assert_eq!(r, Ok(()));
}

#[test]
fn borrow_on_unlisted_market_counts_as_paused() {
    let (c, prices) = setup();
    let snaps = vec![market_snapshot(100, 0)];
    let r = c.borrow_allowed(42, 42, ACCOUNT, 1, Some(pool_attributes(100, 0)), &snaps, &prices);
    assert_eq!(r, Err(Error::BorrowIsPaused));
}
