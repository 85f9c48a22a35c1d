use lending_controller::faucet::Faucet;
use lending_controller::faucet::TokenError;
use lending_controller::faucet::TokenLedger;
use lending_controller::types::PoolSnapshot;

fn pool_snapshot(pool: u128, underlying: Option<u128>) -> PoolSnapshot {
    PoolSnapshot {
        pool,
        underlying,
        decimals: 0,
        account_balance: 0,
        account_borrow_balance: 0,
        exchange_rate: 0,
        total_borrows: 0,
        liquidation_threshold: 0,
    }
}

#[test]
fn mint_credits_the_named_account() {
    let faucet = Faucet::new();
    let mut ledger = TokenLedger::new();
    faucet.mint(&mut ledger, 1, 20, 500, Some(7)).unwrap();
    assert_eq!(ledger.balance_of(20, 7), 500);
    assert_eq!(ledger.balance_of(20, 1), 0);
}

#[test]
fn mint_defaults_to_the_caller() {
    let faucet = Faucet::new();
    let mut ledger = TokenLedger::new();
    faucet.mint(&mut ledger, 1, 20, 500, None).unwrap();
    faucet.mint(&mut ledger, 1, 20, 250, None).unwrap();
    assert_eq!(ledger.balance_of(20, 1), 750);
}

#[test]
fn mint_overflow_is_rejected() {
    let faucet = Faucet::new();
    let mut ledger = TokenLedger::new();
    faucet.mint(&mut ledger, 1, 20, u128::MAX, Some(7)).unwrap();
    assert_eq!(faucet.mint(&mut ledger, 1, 20, 1, Some(7)), Err(TokenError::Overflow));
    assert_eq!(ledger.balance_of(20, 7), u128::MAX);
}

#[test]
fn mint_underlying_resolves_the_pool() {
    let faucet = Faucet::new();
    let mut ledger = TokenLedger::new();
    let pools = vec![pool_snapshot(10, Some(20))];
    faucet.mint_underlying(&mut ledger, &pools, 1, 10, 300, Some(7)).unwrap();
    assert_eq!(ledger.balance_of(20, 7), 300);
}

#[test]
fn mint_underlying_without_wiring_is_rejected() {
    let faucet = Faucet::new();
    let mut ledger = TokenLedger::new();
    let pools = vec![pool_snapshot(10, None)];
    assert_eq!(
        faucet.mint_underlying(&mut ledger, &pools, 1, 10, 300, Some(7)),
        Err(TokenError::UnderlyingIsNotSet)
    );
    assert_eq!(
        faucet.mint_underlying(&mut ledger, &pools, 1, 11, 300, Some(7)),
        Err(TokenError::UnderlyingIsNotSet)
    );
    assert_eq!(ledger.balance_of(20, 7), 0);
}

#[test]
fn mint_underlying_all_serves_every_market() {
    let faucet = Faucet::new();
    let mut ledger = TokenLedger::new();
    let pools = vec![pool_snapshot(10, Some(20)), pool_snapshot(11, Some(21))];
    let markets = vec![10, 11];
    faucet.mint_underlying_all(&mut ledger, &pools, &markets, 1, 50, Some(7)).unwrap();
    assert_eq!(ledger.balance_of(20, 7), 50);
    assert_eq!(ledger.balance_of(21, 7), 50);
}

#[test]
fn mint_underlying_all_stops_at_first_failure() {
    let faucet = Faucet::new();
    let mut ledger = TokenLedger::new();
    let pools = vec![pool_snapshot(10, Some(20)), pool_snapshot(11, None)];
    let markets = vec![10, 11];
    assert_eq!(
        faucet.mint_underlying_all(&mut ledger, &pools, &markets, 1, 50, Some(7)),
        Err(TokenError::UnderlyingIsNotSet)
    );
    assert_eq!(ledger.balance_of(20, 7), 50);
}
