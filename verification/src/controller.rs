//! The controller: market registry, global risk configuration, the action
//! gate consulted around every pool state transition, and the liquidity,
//! health-factor and liquidation queries.
//!
//! The controller never calls other contracts. Everything a cross-contract
//! read would return — per-market pool snapshots for the account under
//! evaluation and the oracle's price table — is handed in by the caller as
//! plain values, so every decision is a pure, fully specified function of
//! explicit state. A market whose snapshot is missing from the
//! supplied table counts as having zero balances during enumeration and as
//! unpriceable where a price would be needed.

use vstd::prelude::*;
use crate::types::AccountId;
use crate::types::Balance;
use crate::types::Error;
use crate::types::Event;
use crate::types::GlobalAction;
use crate::types::Mantissa;
use crate::types::PoolAction;
use crate::types::PoolAttributes;
use crate::types::PoolSnapshot;
use crate::oracle::PriceOracle;
use crate::oracle::price_of;
use crate::types::PoolAttributesForSeizeCalculation;
use crate::math::COLLATERAL_FACTOR_MAX_MANTISSA;
use crate::math::GetHypotheticalAccountLiquidityInput;
use crate::math::HypotheticalAccountLiquidityCalculationParam;
use crate::math::LiquidateCalculateSeizeTokensInput;
use crate::math::UserAccountParam;
use crate::math::BalanceDecreaseAllowedParam;
use crate::math::user_account_data_outcome;
use crate::math::balance_decrease_outcome;
use crate::types::AccountData;
use crate::types::PoolAttributesForWithdrawValidation;
use crate::math::hypothetical_liquidity;
use crate::math::lemma_liquidity_sums_nonneg;
use crate::math::lemma_sum_debt_monotone_in_borrow;
use crate::math::seize_tokens_outcome;
use crate::types::MANTISSA_ONE;
use crate::wide::wide_mul_div;

verus! {

/// One registered market: its pool, underlying asset, risk parameters and
/// pause flags.
#[derive(Clone, Copy, Debug, PartialEq, Eq)]
pub struct Market {
    pub pool: AccountId,
    pub underlying: AccountId,
    pub collateral_factor_mantissa: Option<Mantissa>,
    pub mint_guardian_paused: bool,
    pub borrow_guardian_paused: bool,
    pub borrow_cap: Balance,
}

/// The risk engine's whole state: the market registry, the global
/// configuration, and the log of observability events.
#[derive(Clone, Debug)]
pub struct Controller {
    pub markets: Vec<Market>,
    pub seize_guardian_paused: bool,
    pub transfer_guardian_paused: bool,
    pub oracle: Option<AccountId>,
    pub close_factor_mantissa: Mantissa,
    pub liquidation_incentive_mantissa: Mantissa,
    pub manager: Option<AccountId>,
    pub flashloan_gateway: Option<AccountId>,
    pub events: Vec<Event>,
}

/// The first registry entry for `pool`, if any.
pub open spec fn market_at(ms: Seq<Market>, pool: AccountId) -> Option<Market>
    decreases ms.len(),
{
    if ms.len() == 0 {
        None
    } else if ms.first().pool == pool {
        Some(ms.first())
    } else {
        market_at(ms.drop_first(), pool)
    }
}

/// The pool most recently registered for `underlying`, if any.
pub open spec fn market_of_underlying_at(ms: Seq<Market>, underlying: AccountId) -> Option<
    AccountId,
>
    decreases ms.len(),
{
    if ms.len() == 0 {
        None
    } else if ms.last().underlying == underlying {
        Some(ms.last().pool)
    } else {
        market_of_underlying_at(ms.drop_last(), underlying)
    }
}

/// The collateral factor recorded for `pool`: `None` when the market is not
/// listed or no factor was ever set.
pub open spec fn collateral_factor_of(ms: Seq<Market>, pool: AccountId) -> Option<Mantissa> {
    match market_at(ms, pool) {
        Some(m) => m.collateral_factor_mantissa,
        None => None,
    }
}

/// Whether `pool` is registered.
pub open spec fn listed(ms: Seq<Market>, pool: AccountId) -> bool {
    market_at(ms, pool) is Some
}

proof fn lemma_market_at_push_absent(ms: Seq<Market>, m: Market)
    requires
        market_at(ms, m.pool) is None,
    ensures
        market_at(ms.push(m), m.pool) == Some(m),
        forall|q: AccountId| q != m.pool ==> market_at(ms.push(m), q) == market_at(ms, q),
    decreases ms.len(),
{
    if ms.len() == 0 {
        assert(ms.push(m).drop_first() =~= Seq::<Market>::empty());
        assert forall|q: AccountId| q != m.pool implies market_at(ms.push(m), q) == market_at(
            ms,
            q,
        ) by {
            assert(market_at(Seq::<Market>::empty(), q) is None);
            assert(market_at(ms, q) is None);
        }
    } else {
        assert(ms.push(m).first() == ms.first());
        assert(ms.push(m).drop_first() =~= ms.drop_first().push(m));
        lemma_market_at_push_absent(ms.drop_first(), m);
        assert forall|q: AccountId| q != m.pool implies market_at(ms.push(m), q) == market_at(
            ms,
            q,
        ) by {
            if ms.first().pool != q {
                assert(market_at(ms.drop_first().push(m), q) == market_at(ms.drop_first(), q));
                assert(market_at(ms, q) == market_at(ms.drop_first(), q));
            }
        }
    }
}

proof fn lemma_market_at_update(ms: Seq<Market>, i: int, m: Market, pool: AccountId)
    requires
        0 <= i < ms.len(),
        ms[i].pool == pool,
        m.pool == pool,
        forall|j: int| 0 <= j < i ==> ms[j].pool != pool,
    ensures
        market_at(ms.update(i, m), pool) == Some(m),
        forall|q: AccountId| q != pool ==> market_at(ms.update(i, m), q) == market_at(ms, q),
    decreases i,
{
    if i == 0 {
        assert(ms.update(0, m).first() == m);
        assert(ms.update(0, m).drop_first() =~= ms.drop_first());
        assert forall|q: AccountId| q != pool implies market_at(ms.update(0, m), q) == market_at(
            ms,
            q,
        ) by {
            assert(market_at(ms, q) == market_at(ms.drop_first(), q));
            assert(market_at(ms.update(0, m), q) == market_at(ms.drop_first(), q));
        }
    } else {
        assert(ms.update(i, m).first() == ms.first());
        assert(ms.update(i, m).drop_first() =~= ms.drop_first().update(i - 1, m));
        assert(forall|j: int| 0 <= j < i - 1 ==> ms.drop_first()[j].pool != pool);
        lemma_market_at_update(ms.drop_first(), i - 1, m, pool);
        assert forall|q: AccountId| q != pool implies market_at(ms.update(i, m), q) == market_at(
            ms,
            q,
        ) by {
            if ms.first().pool != q {
                assert(market_at(ms.drop_first().update(i - 1, m), q) == market_at(
                    ms.drop_first(),
                    q,
                ));
                assert(market_at(ms, q) == market_at(ms.drop_first(), q));
            }
        }
    }
}


/// Manager gating of the admin surface: only the configured manager may
/// change risk parameters.
pub open spec fn manager_gate(c: Controller, caller: AccountId) -> Result<(), Error> {
    match c.manager {
        None => Err(Error::ManagerIsNotSet),
        Some(m) => if caller != m {
            Err(Error::CallerIsNotManager)
        } else {
            Ok(())
        },
    }
}

/// `post` equals `target` in every stored field and has recorded exactly
/// one more event, `ev`.
pub open spec fn updated_with_event(target: Controller, post: Controller, ev: Event) -> bool {
    &&& post.markets == target.markets
    &&& post.seize_guardian_paused == target.seize_guardian_paused
    &&& post.transfer_guardian_paused == target.transfer_guardian_paused
    &&& post.oracle == target.oracle
    &&& post.close_factor_mantissa == target.close_factor_mantissa
    &&& post.liquidation_incentive_mantissa == target.liquidation_incentive_mantissa
    &&& post.manager == target.manager
    &&& post.flashloan_gateway == target.flashloan_gateway
    &&& post.events@ == target.events@.push(ev)
}

/// The global (non-registry) configuration of `post` equals `pre`'s.
pub open spec fn globals_unchanged(pre: Controller, post: Controller) -> bool {
    &&& post.seize_guardian_paused == pre.seize_guardian_paused
    &&& post.transfer_guardian_paused == pre.transfer_guardian_paused
    &&& post.oracle == pre.oracle
    &&& post.close_factor_mantissa == pre.close_factor_mantissa
    &&& post.liquidation_incentive_mantissa == pre.liquidation_incentive_mantissa
    &&& post.manager == pre.manager
    &&& post.flashloan_gateway == pre.flashloan_gateway
}


/// Outcome of registering `pool` without a collateral factor.
pub open spec fn support_market_outcome(c: Controller, caller: AccountId, pool: AccountId) -> Result<
    (),
    Error,
> {
    match manager_gate(c, caller) {
        Err(e) => Err(e),
        Ok(()) => if listed(c.markets@, pool) {
            Err(Error::MarketAlreadyListed)
        } else {
            Ok(())
        },
    }
}

/// Validation of a new collateral factor: it must lie in
/// `(0, COLLATERAL_FACTOR_MAX_MANTISSA]` and the market's underlying must
/// have a usable oracle price.
pub open spec fn collateral_factor_check(
    c: Controller,
    prices: Seq<(AccountId, u128)>,
    underlying: AccountId,
    new_value: Mantissa,
) -> Result<(), Error> {
    if new_value == 0 || new_value > COLLATERAL_FACTOR_MAX_MANTISSA {
        Err(Error::InvalidCollateralFactor)
    } else if c.oracle is None {
        Err(Error::OracleIsNotSet)
    } else {
        match price_of(prices, underlying) {
            None => Err(Error::PriceError),
            Some(p) => if p == 0 {
                Err(Error::PriceError)
            } else {
                Ok(())
            },
        }
    }
}

/// Outcome of registering `pool` together with a collateral factor.
pub open spec fn support_market_with_collateral_factor_outcome(
    c: Controller,
    caller: AccountId,
    pool: AccountId,
    underlying: AccountId,
    new_value: Mantissa,
    prices: Seq<(AccountId, u128)>,
) -> Result<(), Error> {
    match manager_gate(c, caller) {
        Err(e) => Err(e),
        Ok(()) => if listed(c.markets@, pool) {
            Err(Error::MarketAlreadyListed)
        } else {
            collateral_factor_check(c, prices, underlying, new_value)
        },
    }
}

/// Outcome of changing a listed market's collateral factor.
pub open spec fn set_collateral_factor_outcome(
    c: Controller,
    caller: AccountId,
    pool: AccountId,
    new_value: Mantissa,
    prices: Seq<(AccountId, u128)>,
) -> Result<(), Error> {
    match manager_gate(c, caller) {
        Err(e) => Err(e),
        Ok(()) => if new_value == 0 || new_value > COLLATERAL_FACTOR_MAX_MANTISSA {
            Err(Error::InvalidCollateralFactor)
        } else if c.oracle is None {
            Err(Error::OracleIsNotSet)
        } else {
            match market_at(c.markets@, pool) {
                None => Err(Error::MarketNotListed),
                Some(m) => match price_of(prices, m.underlying) {
                    None => Err(Error::PriceError),
                    Some(p) => if p == 0 {
                        Err(Error::PriceError)
                    } else {
                        Ok(())
                    },
                },
            }
        },
    }
}

/// Gate shared by the per-market flag and cap setters: manager only, and
/// the market must be listed.
pub open spec fn market_admin_gate(c: Controller, caller: AccountId, pool: AccountId) -> Result<
    (),
    Error,
> {
    match manager_gate(c, caller) {
        Err(e) => Err(e),
        Ok(()) => if !listed(c.markets@, pool) {
            Err(Error::MarketNotListed)
        } else {
            Ok(())
        },
    }
}

/// The mint gate: a market that is unlisted, or whose mint flag is set,
/// blocks supplying.
pub open spec fn mint_allowed_outcome(c: Controller, pool: AccountId) -> Result<(), Error> {
    match market_at(c.markets@, pool) {
        Some(m) => if m.mint_guardian_paused {
            Err(Error::MintIsPaused)
        } else {
            Ok(())
        },
        None => Err(Error::MintIsPaused),
    }
}

/// The seize gate: the global pause flag must be clear and both markets
/// listed.
pub open spec fn seize_allowed_outcome(
    c: Controller,
    pool_collateral: AccountId,
    pool_borrowed: AccountId,
) -> Result<(), Error> {
    if c.seize_guardian_paused {
        Err(Error::SeizeIsPaused)
    } else if !listed(c.markets@, pool_collateral) || !listed(c.markets@, pool_borrowed) {
        Err(Error::MarketNotListed)
    } else {
        Ok(())
    }
}


/// The first snapshot supplied for `pool`, if any.
pub open spec fn snapshot_at(snaps: Seq<PoolSnapshot>, pool: AccountId) -> Option<PoolSnapshot>
    decreases snaps.len(),
{
    if snaps.len() == 0 {
        None
    } else if snaps.first().pool == pool {
        Some(snaps.first())
    } else {
        snapshot_at(snaps.drop_first(), pool)
    }
}

/// Whether a market takes part in an account's liquidity evaluation: the
/// calling pool is excluded (it supplies its own data), the target market
/// is force-included, and any other market participates when the account
/// holds collateral or debt in it.
pub open spec fn participates(
    m: Market,
    caller: AccountId,
    token_modify: Option<AccountId>,
    snaps: Seq<PoolSnapshot>,
) -> bool {
    m.pool != caller && (token_modify == Some(m.pool) || (match snapshot_at(snaps, m.pool) {
        Some(s) => s.account_balance > 0 || s.account_borrow_balance > 0,
        None => false,
    }))
}

/// The account's participating markets, in registration order.
pub open spec fn account_assets_spec(
    ms: Seq<Market>,
    caller: AccountId,
    token_modify: Option<AccountId>,
    snaps: Seq<PoolSnapshot>,
) -> Seq<AccountId>
    decreases ms.len(),
{
    if ms.len() == 0 {
        Seq::empty()
    } else {
        let rest = account_assets_spec(ms.drop_last(), caller, token_modify, snaps);
        if participates(ms.last(), caller, token_modify, snaps) {
            rest.push(ms.last().pool)
        } else {
            rest
        }
    }
}

/// Valuation parameters of one participating market, read from its
/// snapshot: an unpriceable market (no snapshot, no underlying, no price or
/// a zero price) is a hard `PriceError`, and a missing collateral factor a
/// hard `MarketNotListed` — never silently a zero value.
pub open spec fn walk_param(
    c: Controller,
    snaps: Seq<PoolSnapshot>,
    prices: Seq<(AccountId, u128)>,
    asset: AccountId,
) -> Result<HypotheticalAccountLiquidityCalculationParam, Error> {
    match snapshot_at(snaps, asset) {
        None => Err(Error::PriceError),
        Some(s) => match s.underlying {
            None => Err(Error::PriceError),
            Some(u) => match price_of(prices, u) {
                None => Err(Error::PriceError),
                Some(pr) => if pr == 0 {
                    Err(Error::PriceError)
                } else {
                    match collateral_factor_of(c.markets@, asset) {
                        None => Err(Error::MarketNotListed),
                        Some(cf) => Ok(
                            HypotheticalAccountLiquidityCalculationParam {
                                asset,
                                decimals: s.decimals,
                                token_balance: s.account_balance,
                                borrow_balance: s.account_borrow_balance,
                                exchange_rate_mantissa: s.exchange_rate,
                                collateral_factor_mantissa: cf,
                                oracle_price_mantissa: pr,
                            },
                        ),
                    }
                },
            },
        },
    }
}

/// Valuation parameters of every asset in order; the first failure wins.
pub open spec fn walk_params(
    c: Controller,
    snaps: Seq<PoolSnapshot>,
    prices: Seq<(AccountId, u128)>,
    assets: Seq<AccountId>,
) -> Result<Seq<HypotheticalAccountLiquidityCalculationParam>, Error>
    decreases assets.len(),
{
    if assets.len() == 0 {
        Ok(Seq::empty())
    } else {
        match walk_params(c, snaps, prices, assets.drop_last()) {
            Err(e) => Err(e),
            Ok(ps) => match walk_param(c, snaps, prices, assets.last()) {
                Err(e) => Err(e),
                Ok(p) => Ok(ps.push(p)),
            },
        }
    }
}

/// Valuation parameters of the calling pool itself, built from its own
/// snapshot instead of a cross-call back into it.
pub open spec fn caller_pool_param(
    c: Controller,
    prices: Seq<(AccountId, u128)>,
    pool: AccountId,
    attrs: PoolAttributes,
) -> Result<HypotheticalAccountLiquidityCalculationParam, Error> {
    match attrs.underlying {
        None => Err(Error::UnderlyingIsNotSet),
        Some(u) => match price_of(prices, u) {
            None => Err(Error::PriceError),
            Some(pr) => if pr == 0 {
                Err(Error::PriceError)
            } else {
                match collateral_factor_of(c.markets@, pool) {
                    None => Err(Error::MarketNotListed),
                    Some(cf) => Ok(
                        HypotheticalAccountLiquidityCalculationParam {
                            asset: pool,
                            decimals: attrs.decimals,
                            token_balance: attrs.account_balance,
                            borrow_balance: attrs.account_borrow_balance,
                            exchange_rate_mantissa: attrs.exchange_rate,
                            collateral_factor_mantissa: cf,
                            oracle_price_mantissa: pr,
                        },
                    ),
                }
            },
        },
    }
}

/// The full hypothetical-liquidity protocol: oracle configured, the calling
/// pool's own parameters validated first, then every participating market
/// priced, then the fixed-point sums compared.
pub open spec fn hypo_liquidity_outcome(
    c: Controller,
    caller: AccountId,
    token_modify: Option<AccountId>,
    redeem_tokens: Balance,
    borrow_amount: Balance,
    caller_pool: Option<(AccountId, PoolAttributes)>,
    snaps: Seq<PoolSnapshot>,
    prices: Seq<(AccountId, u128)>,
) -> Result<(u128, u128), Error> {
    if c.oracle is None {
        Err(Error::OracleIsNotSet)
    } else {
        let head = match caller_pool {
            None => Ok(Seq::<HypotheticalAccountLiquidityCalculationParam>::empty()),
            Some(cp) => match caller_pool_param(c, prices, cp.0, cp.1) {
                Err(e) => Err(e),
                Ok(p) => Ok(seq![p]),
            },
        };
        match head {
            Err(e) => Err(e),
            Ok(h) => {
                let assets = account_assets_spec(c.markets@, caller, token_modify, snaps);
                match walk_params(c, snaps, prices, assets) {
                    Err(e) => Err(e),
                    Ok(ps) => hypothetical_liquidity(
                        h + ps,
                        token_modify,
                        redeem_tokens,
                        borrow_amount,
                    ),
                }
            },
        }
    }
}

/// The redeem gate: the hypothetical position after withdrawing
/// `redeem_amount` of the market's shares must show no shortfall.
pub open spec fn redeem_allowed_outcome(
    c: Controller,
    caller: AccountId,
    pool: AccountId,
    redeem_amount: Balance,
    pool_attribute: Option<PoolAttributes>,
    snaps: Seq<PoolSnapshot>,
    prices: Seq<(AccountId, u128)>,
) -> Result<(), Error> {
    let caller_pool = match pool_attribute {
        Some(a) => Some((pool, a)),
        None => None,
    };
    match hypo_liquidity_outcome(c, caller, Some(pool), redeem_amount, 0, caller_pool, snaps, prices) {
        Err(e) => Err(e),
        Ok(pair) => if pair.1 != 0 {
            Err(Error::InsufficientLiquidity)
        } else {
            Ok(())
        },
    }
}

/// The borrow gate: market listed and not borrow-paused, oracle set, a
/// usable price for the underlying, the borrow cap respected, and no
/// hypothetical shortfall after adding the borrow.
pub open spec fn borrow_allowed_outcome(
    c: Controller,
    caller: AccountId,
    pool: AccountId,
    borrow_amount: Balance,
    pool_attribute: Option<PoolAttributes>,
    snaps: Seq<PoolSnapshot>,
    prices: Seq<(AccountId, u128)>,
) -> Result<(), Error> {
    match market_at(c.markets@, pool) {
        None => Err(Error::BorrowIsPaused),
        Some(m) => if m.borrow_guardian_paused {
            Err(Error::BorrowIsPaused)
        } else if c.oracle is None {
            Err(Error::OracleIsNotSet)
        } else {
            let resolved = match pool_attribute {
                None => match snapshot_at(snaps, pool) {
                    None => Err(Error::PriceError),
                    Some(s) => match s.underlying {
                        None => Err(Error::PriceError),
                        Some(u) => match price_of(prices, u) {
                            None => Err(Error::PriceError),
                            Some(pr) => if pr == 0 {
                                Err(Error::PriceError)
                            } else {
                                Ok((s.total_borrows, None::<(AccountId, PoolAttributes)>))
                            },
                        },
                    },
                },
                Some(a) => match a.underlying {
                    None => Err(Error::UnderlyingIsNotSet),
                    Some(u) => match price_of(prices, u) {
                        None => Err(Error::PriceError),
                        Some(pr) => if pr == 0 {
                            Err(Error::PriceError)
                        } else {
                            Ok((a.total_borrows, Some((pool, a))))
                        },
                    },
                },
            };
            match resolved {
                Err(e) => Err(e),
                Ok(res) => if m.borrow_cap != 0 && (m.borrow_cap < borrow_amount || res.0
                    > m.borrow_cap - borrow_amount) {
                    Err(Error::BorrowCapReached)
                } else {
                    match hypo_liquidity_outcome(
                        c,
                        caller,
                        Some(pool),
                        0,
                        borrow_amount,
                        res.1,
                        snaps,
                        prices,
                    ) {
                        Err(e) => Err(e),
                        Ok(pair) => if pair.1 != 0 {
                            Err(Error::InsufficientLiquidity)
                        } else {
                            Ok(())
                        },
                    }
                },
            }
        },
    }
}

/// The transfer gate: the global transfer pause must be clear; the rest is
/// the redeem gate for the transferred shares.
pub open spec fn transfer_allowed_outcome(
    c: Controller,
    caller: AccountId,
    pool: AccountId,
    transfer_tokens: Balance,
    pool_attribute: Option<PoolAttributes>,
    snaps: Seq<PoolSnapshot>,
    prices: Seq<(AccountId, u128)>,
) -> Result<(), Error> {
    if c.transfer_guardian_paused {
        Err(Error::TransferIsPaused)
    } else {
        redeem_allowed_outcome(c, caller, pool, transfer_tokens, pool_attribute, snaps, prices)
    }
}

/// The borrower's current borrow balance in the borrowed market, from the
/// calling pool's own data when supplied, else from the snapshot table.
pub open spec fn liquidate_borrow_balance(
    pool_borrowed: AccountId,
    pool_attribute: Option<PoolAttributes>,
    snaps: Seq<PoolSnapshot>,
) -> Balance {
    match pool_attribute {
        Some(a) => a.account_borrow_balance,
        None => match snapshot_at(snaps, pool_borrowed) {
            Some(s) => s.account_borrow_balance,
            None => 0,
        },
    }
}

/// The liquidation gate: both markets listed, the borrower actually in
/// shortfall, and the repayment at most closeFactor x the borrow balance.
pub open spec fn liquidate_borrow_allowed_outcome(
    c: Controller,
    caller: AccountId,
    pool_borrowed: AccountId,
    pool_collateral: AccountId,
    repay_amount: Balance,
    pool_attribute: Option<PoolAttributes>,
    snaps: Seq<PoolSnapshot>,
    prices: Seq<(AccountId, u128)>,
) -> Result<(), Error> {
    if !listed(c.markets@, pool_borrowed) || !listed(c.markets@, pool_collateral) {
        Err(Error::MarketNotListed)
    } else {
        let caller_pool = match pool_attribute {
            Some(a) => Some((pool_borrowed, a)),
            None => None,
        };
        let borrow_balance = liquidate_borrow_balance(pool_borrowed, pool_attribute, snaps);
        match hypo_liquidity_outcome(c, caller, None, 0, 0, caller_pool, snaps, prices) {
            Err(e) => Err(e),
            Ok(pair) => if pair.1 == 0 {
                Err(Error::InsufficientShortfall)
            } else if repay_amount > (c.close_factor_mantissa * borrow_balance) / (
            MANTISSA_ONE as int) {
                Err(Error::TooMuchRepay)
            } else {
                Ok(())
            },
        }
    }
}

/// Price and decimals of one side of a liquidation, from the supplied
/// attributes or the snapshot table; missing or zero prices are hard
/// failures.
pub open spec fn seize_side(
    pool: AccountId,
    attrs: Option<PoolAttributesForSeizeCalculation>,
    snaps: Seq<PoolSnapshot>,
    prices: Seq<(AccountId, u128)>,
) -> Result<(u128, u8), Error> {
    match attrs {
        Some(a) => match a.underlying {
            None => Err(Error::UnderlyingIsNotSet),
            Some(u) => match price_of(prices, u) {
                None => Err(Error::PriceError),
                Some(pr) => if pr == 0 {
                    Err(Error::PriceError)
                } else {
                    Ok((pr, a.decimals))
                },
            },
        },
        None => match snapshot_at(snaps, pool) {
            None => Err(Error::PriceError),
            Some(s) => match s.underlying {
                None => Err(Error::PriceError),
                Some(u) => match price_of(prices, u) {
                    None => Err(Error::PriceError),
                    Some(pr) => if pr == 0 {
                        Err(Error::PriceError)
                    } else {
                        Ok((pr, s.decimals))
                    },
                },
            },
        },
    }
}

/// The liquidation pricing protocol: oracle configured, both sides priced,
/// then the seize formula applied with the configured incentive.
pub open spec fn seize_calc_outcome(
    c: Controller,
    pool_borrowed: AccountId,
    pool_collateral: AccountId,
    exchange_rate_mantissa: Mantissa,
    repay_amount: Balance,
    pool_borrowed_attributes: Option<PoolAttributesForSeizeCalculation>,
    pool_collateral_attributes: Option<PoolAttributesForSeizeCalculation>,
    snaps: Seq<PoolSnapshot>,
    prices: Seq<(AccountId, u128)>,
) -> Result<Balance, Error> {
    if c.oracle is None {
        Err(Error::OracleIsNotSet)
    } else {
        match seize_side(pool_borrowed, pool_borrowed_attributes, snaps, prices) {
            Err(e) => Err(e),
            Ok(b) => match seize_side(pool_collateral, pool_collateral_attributes, snaps, prices) {
                Err(e) => Err(e),
                Ok(cl) => seize_tokens_outcome(
                    LiquidateCalculateSeizeTokensInput {
                        price_borrowed_mantissa: b.0,
                        decimals_borrowed: b.1,
                        price_collateral_mantissa: cl.0,
                        decimals_collateral: cl.1,
                        exchange_rate_mantissa,
                        liquidation_incentive_mantissa: c.liquidation_incentive_mantissa,
                        actual_repay_amount: repay_amount,
                    },
                ),
            },
        }
    }
}

proof fn lemma_walk_params_prefix_err(
    c: Controller,
    snaps: Seq<PoolSnapshot>,
    prices: Seq<(AccountId, u128)>,
    assets: Seq<AccountId>,
    j: int,
)
    requires
        0 <= j <= assets.len(),
        walk_params(c, snaps, prices, assets.take(j)) is Err,
    ensures
        walk_params(c, snaps, prices, assets) == walk_params(c, snaps, prices, assets.take(j)),
    decreases assets.len() - j,
{
    if j == assets.len() {
        assert(assets.take(j) =~= assets);
    } else {
        assert(assets.take(j + 1).drop_last() =~= assets.take(j));
        lemma_walk_params_prefix_err(c, snaps, prices, assets, j + 1);
    }
}

pub(crate) fn find_snapshot_index(snapshots: &Vec<PoolSnapshot>, pool: AccountId) -> (r: Option<usize>)
    ensures
        match r {
            Some(i) => i < snapshots@.len() && snapshot_at(snapshots@, pool) == Some(
                snapshots@[i as int],
            ),
            None => snapshot_at(snapshots@, pool) is None,
        },
{
    let ghost sv = snapshots@;
    let n = snapshots.len();
    let mut i: usize = 0;
    proof {
        assert(sv.skip(0) =~= sv);
    }
    while i < n
        invariant
            0 <= i <= n,
            n == sv.len(),
            snapshots@ == sv,
            snapshot_at(sv, pool) == snapshot_at(sv.skip(i as int), pool),
        decreases n - i,
    {
        proof {
            assert(sv.skip(i as int).first() == sv[i as int]);
            assert(sv.skip(i as int).drop_first() =~= sv.skip(i as int + 1));
        }
        if snapshots[i].pool == pool {
            return Some(i);
        }
        i = i + 1;
    }
    proof {
        assert(sv.skip(n as int) =~= Seq::<PoolSnapshot>::empty());
    }
    None
}


/// The calling pool's inputs to the account-data computation, validated
/// from its supplied record.
pub open spec fn user_head_param(
    c: Controller,
    prices: Seq<(AccountId, u128)>,
    attrs: PoolAttributesForWithdrawValidation,
) -> Result<UserAccountParam, Error> {
    match attrs.pool {
        None => Err(Error::PoolIsNotSet),
        Some(p) => match collateral_factor_of(c.markets@, p) {
            None => Err(Error::MarketNotListed),
            Some(cf) => match attrs.underlying {
                None => Err(Error::UnderlyingIsNotSet),
                Some(u) => match price_of(prices, u) {
                    None => Err(Error::PriceError),
                    Some(pr) => Ok(
                        UserAccountParam {
                            price: pr,
                            ltv: cf,
                            liquidation_threshold: attrs.liquidation_threshold,
                            balance: attrs.account_balance,
                            borrow: attrs.account_borrow_balance,
                        },
                    ),
                },
            },
        },
    }
}

/// One participating market's inputs to the account-data computation, read
/// from its snapshot. Unlike the liquidity walk, a zero price is accepted
/// here; only a missing price is an error.
pub open spec fn user_walk_param(
    c: Controller,
    snaps: Seq<PoolSnapshot>,
    prices: Seq<(AccountId, u128)>,
    asset: AccountId,
) -> Result<UserAccountParam, Error> {
    match collateral_factor_of(c.markets@, asset) {
        None => Err(Error::MarketNotListed),
        Some(cf) => match snapshot_at(snaps, asset) {
            None => Err(Error::UnderlyingIsNotSet),
            Some(s) => match s.underlying {
                None => Err(Error::UnderlyingIsNotSet),
                Some(u) => match price_of(prices, u) {
                    None => Err(Error::PriceError),
                    Some(pr) => Ok(
                        UserAccountParam {
                            price: pr,
                            ltv: cf,
                            liquidation_threshold: s.liquidation_threshold,
                            balance: s.account_balance,
                            borrow: s.account_borrow_balance,
                        },
                    ),
                },
            },
        },
    }
}

/// Account-data inputs of every asset in order; the first failure wins.
pub open spec fn user_walk_params(
    c: Controller,
    snaps: Seq<PoolSnapshot>,
    prices: Seq<(AccountId, u128)>,
    assets: Seq<AccountId>,
) -> Result<Seq<UserAccountParam>, Error>
    decreases assets.len(),
{
    if assets.len() == 0 {
        Ok(Seq::empty())
    } else {
        match user_walk_params(c, snaps, prices, assets.drop_last()) {
            Err(e) => Err(e),
            Ok(ps) => match user_walk_param(c, snaps, prices, assets.last()) {
                Err(e) => Err(e),
                Ok(p) => Ok(ps.push(p)),
            },
        }
    }
}

/// The full account-data protocol: oracle configured, the calling pool's
/// record validated, every participating market read, then the aggregate
/// position computed.
pub open spec fn user_account_data_full(
    c: Controller,
    caller: AccountId,
    attrs: PoolAttributesForWithdrawValidation,
    snaps: Seq<PoolSnapshot>,
    prices: Seq<(AccountId, u128)>,
) -> Result<AccountData, Error> {
    if c.oracle is None {
        Err(Error::OracleIsNotSet)
    } else {
        match user_head_param(c, prices, attrs) {
            Err(e) => Err(e),
            Ok(h) => {
                let assets = account_assets_spec(c.markets@, caller, None, snaps);
                match user_walk_params(c, snaps, prices, assets) {
                    Err(e) => Err(e),
                    Ok(ps) => user_account_data_outcome(seq![h] + ps),
                }
            },
        }
    }
}

/// The withdrawal gate: an account with no debt may always withdraw; an
/// unusable price makes the withdrawal unsafe (a business `false`, not an
/// error); otherwise the post-withdrawal health factor decides.
pub open spec fn balance_decrease_allowed_outcome(
    c: Controller,
    caller: AccountId,
    attrs: PoolAttributesForWithdrawValidation,
    amount: Balance,
    snaps: Seq<PoolSnapshot>,
    prices: Seq<(AccountId, u128)>,
) -> Result<bool, Error> {
    if c.oracle is None {
        Err(Error::OracleIsNotSet)
    } else {
        match user_account_data_full(c, caller, attrs, snaps, prices) {
            Err(e) => Err(e),
            Ok(ad) => if ad.total_debt_in_base_currency == 0 {
                Ok(true)
            } else {
                match attrs.underlying {
                    None => Err(Error::UnderlyingIsNotSet),
                    Some(u) => match price_of(prices, u) {
                        None => Ok(false),
                        Some(pr) => if pr == 0 {
                            Ok(false)
                        } else {
                            balance_decrease_outcome(
                                BalanceDecreaseAllowedParam {
                                    total_collateral_in_base_currency:
                                        ad.total_collateral_in_base_currency,
                                    total_debt_in_base_currency: ad.total_debt_in_base_currency,
                                    avg_liquidation_threshold: ad.avg_liquidation_threshold,
                                    amount_in_base_currency_unit: amount,
                                    asset_price: pr,
                                    liquidation_threshold: attrs.liquidation_threshold,
                                },
                            )
                        },
                    },
                }
            },
        }
    }
}

proof fn lemma_user_walk_params_prefix_err(
    c: Controller,
    snaps: Seq<PoolSnapshot>,
    prices: Seq<(AccountId, u128)>,
    assets: Seq<AccountId>,
    j: int,
)
    requires
        0 <= j <= assets.len(),
        user_walk_params(c, snaps, prices, assets.take(j)) is Err,
    ensures
        user_walk_params(c, snaps, prices, assets) == user_walk_params(
            c,
            snaps,
            prices,
            assets.take(j),
        ),
    decreases assets.len() - j,
{
    if j == assets.len() {
        assert(assets.take(j) =~= assets);
    } else {
        assert(assets.take(j + 1).drop_last() =~= assets.take(j));
        lemma_user_walk_params_prefix_err(c, snaps, prices, assets, j + 1);
    }
}


/// The hypothetical-liquidity outcome only moves toward rejection as the
/// hypothetical borrow grows: an error stays an error, and a shortfall
/// stays a shortfall.
proof fn lemma_hypo_outcome_monotone_in_borrow(
    c: Controller,
    caller: AccountId,
    token_modify: Option<AccountId>,
    redeem_tokens: Balance,
    amount1: Balance,
    amount2: Balance,
    caller_pool: Option<(AccountId, PoolAttributes)>,
    snaps: Seq<PoolSnapshot>,
    prices: Seq<(AccountId, u128)>,
)
    requires
        amount1 <= amount2,
    ensures
        ({
            let h1 = hypo_liquidity_outcome(
                c,
                caller,
                token_modify,
                redeem_tokens,
                amount1,
                caller_pool,
                snaps,
                prices,
            );
            let h2 = hypo_liquidity_outcome(
                c,
                caller,
                token_modify,
                redeem_tokens,
                amount2,
                caller_pool,
                snaps,
                prices,
            );
            &&& (h1 is Err ==> h2 is Err)
            &&& (match (h1, h2) {
                (Ok(p1), Ok(p2)) => p1.1 != 0 ==> p2.1 != 0,
                _ => true,
            })
        }),
{
    if !(c.oracle is None) {
        let head = match caller_pool {
            None => Ok::<_, Error>(Seq::<HypotheticalAccountLiquidityCalculationParam>::empty()),
            Some(cp) => match caller_pool_param(c, prices, cp.0, cp.1) {
                Err(e) => Err(e),
                Ok(p) => Ok(seq![p]),
            },
        };
        match head {
            Err(_) => {},
            Ok(h) => {
                let assets = account_assets_spec(c.markets@, caller, token_modify, snaps);
                match walk_params(c, snaps, prices, assets) {
                    Err(_) => {},
                    Ok(ps) => {
                        let all = h + ps;
                        lemma_sum_debt_monotone_in_borrow(
                            all,
                            token_modify,
                            redeem_tokens,
                            amount1,
                            amount2,
                        );
                        lemma_liquidity_sums_nonneg(all, token_modify, redeem_tokens, amount1);
                        lemma_liquidity_sums_nonneg(all, token_modify, redeem_tokens, amount2);
                    },
                }
            },
        }
    }
}

/// Law: the borrow gate is monotone in the borrow amount — once a borrow
/// of `amount1` is rejected, every borrow of at least that much is also
/// rejected, with all other state fixed.
pub proof fn lemma_borrow_rejection_monotone(
    c: Controller,
    caller: AccountId,
    pool: AccountId,
    amount1: Balance,
    amount2: Balance,
    pool_attribute: Option<PoolAttributes>,
    snaps: Seq<PoolSnapshot>,
    prices: Seq<(AccountId, u128)>,
)
    requires
        amount1 <= amount2,
        borrow_allowed_outcome(c, caller, pool, amount1, pool_attribute, snaps, prices) is Err,
    ensures
        borrow_allowed_outcome(c, caller, pool, amount2, pool_attribute, snaps, prices) is Err,
{
    let o2 = borrow_allowed_outcome(c, caller, pool, amount2, pool_attribute, snaps, prices);
    if o2 is Ok {
        match market_at(c.markets@, pool) {
            None => {},
            Some(m) => {
                lemma_hypo_outcome_monotone_in_borrow(
                    c,
                    caller,
                    Some(pool),
                    0,
                    amount1,
                    amount2,
                    (match pool_attribute {
                        None => None,
                        Some(a) => Some((pool, a)),
                    }),
                    snaps,
                    prices,
                );
            },
        }
        assert(false);
    }
}

impl Controller {
    /// A fresh controller: no markets, no oracle, nothing paused, zero
    /// close factor and liquidation incentive, and the given manager.
    pub fn new(manager: Option<AccountId>) -> (r: Self)
        ensures
            r.markets@.len() == 0,
            !r.seize_guardian_paused,
            !r.transfer_guardian_paused,
            r.oracle is None,
            r.close_factor_mantissa == 0,
            r.liquidation_incentive_mantissa == 0,
            r.manager == manager,
            r.flashloan_gateway is None,
            r.events@.len() == 0,
    {
        Controller {
            markets: Vec::new(),
            seize_guardian_paused: false,
            transfer_guardian_paused: false,
            oracle: None,
            close_factor_mantissa: 0,
            liquidation_incentive_mantissa: 0,
            manager,
            flashloan_gateway: None,
            events: Vec::new(),
        }
    }

    /// Index of the registry entry for `pool`, if any.
    fn find_market_index(&self, pool: AccountId) -> (r: Option<usize>)
        ensures
            match r {
                Some(i) => i < self.markets@.len() && self.markets@[i as int].pool == pool
                    && market_at(self.markets@, pool) == Some(self.markets@[i as int]) && forall|
                    j: int,
                |
                    0 <= j < i ==> self.markets@[j].pool != pool,
                None => market_at(self.markets@, pool) is None,
            },
    {
        let ghost ms = self.markets@;
        let n = self.markets.len();
        let mut i: usize = 0;
        proof {
            assert(ms.skip(0) =~= ms);
        }
        while i < n
            invariant
                0 <= i <= n,
                n == ms.len(),
                self.markets@ == ms,
                market_at(ms, pool) == market_at(ms.skip(i as int), pool),
                forall|j: int| 0 <= j < i ==> ms[j].pool != pool,
            decreases n - i,
        {
            proof {
                assert(ms.skip(i as int).first() == ms[i as int]);
                assert(ms.skip(i as int).drop_first() =~= ms.skip(i as int + 1));
            }
            if self.markets[i].pool == pool {
                return Some(i);
            }
            i = i + 1;
        }
        proof {
            assert(ms.skip(n as int) =~= Seq::<Market>::empty());
        }
        None
    }

    /// Whether `pool` is a registered market.
    pub fn is_listed(&self, pool: AccountId) -> (r: bool)
        ensures
            r == listed(self.markets@, pool),
    {
        self.find_market_index(pool).is_some()
    }

    /// Pool identifiers of all registered markets, in registration order.
    pub fn markets(&self) -> (r: Vec<AccountId>)
        ensures
            r@ == self.markets@.map_values(|m: Market| m.pool),
    {
        let ghost ms = self.markets@;
        let n = self.markets.len();
        let mut out: Vec<AccountId> = Vec::new();
        let mut i: usize = 0;
        proof {
            assert(out@ =~= ms.take(0).map_values(|m: Market| m.pool));
        }
        while i < n
            invariant
                0 <= i <= n,
                n == ms.len(),
                self.markets@ == ms,
                out@ == ms.take(i as int).map_values(|m: Market| m.pool),
            decreases n - i,
        {
            out.push(self.markets[i].pool);
            proof {
                assert(out@ =~= ms.take(i as int + 1).map_values(|m: Market| m.pool));
            }
            i = i + 1;
        }
        proof {
            assert(ms.take(n as int) =~= ms);
        }
        out
    }

    /// The pool most recently registered for `underlying`, if any.
    pub fn market_of_underlying(&self, underlying: AccountId) -> (r: Option<AccountId>)
        ensures
            r == market_of_underlying_at(self.markets@, underlying),
    {
        let ghost ms = self.markets@;
        let mut i: usize = self.markets.len();
        proof {
            assert(ms.take(i as int) =~= ms);
        }
        while i > 0
            invariant
                i <= ms.len(),
                self.markets@ == ms,
                market_of_underlying_at(ms.take(i as int), underlying)
                    == market_of_underlying_at(ms, underlying),
            decreases i,
        {
            let m = self.markets[i - 1];
            proof {
                assert(m == ms[i - 1]);
                assert(ms.take(i as int).drop_last() =~= ms.take(i - 1));
                assert(ms.take(i as int).last() == ms[i - 1]);
            }
            if m.underlying == underlying {
                return Some(m.pool);
            }
            i = i - 1;
        }
        None
    }

    /// The collateral factor of `pool`; `None` means "not listed or never
    /// set" and callers must treat it as a hard failure, never as zero.
    pub fn collateral_factor_mantissa(&self, pool: AccountId) -> (r: Option<Mantissa>)
        ensures
            r == collateral_factor_of(self.markets@, pool),
    {
        match self.find_market_index(pool) {
            Some(i) => self.markets[i].collateral_factor_mantissa,
            None => None,
        }
    }

    /// Whether `pool` has paused minting; `None` when not listed.
    pub fn mint_guardian_paused(&self, pool: AccountId) -> (r: Option<bool>)
        ensures
            r == (match market_at(self.markets@, pool) {
                Some(m) => Some(m.mint_guardian_paused),
                None => None::<bool>,
            }),
    {
        match self.find_market_index(pool) {
            Some(i) => Some(self.markets[i].mint_guardian_paused),
            None => None,
        }
    }

    /// Whether `pool` has paused borrowing; `None` when not listed.
    pub fn borrow_guardian_paused(&self, pool: AccountId) -> (r: Option<bool>)
        ensures
            r == (match market_at(self.markets@, pool) {
                Some(m) => Some(m.borrow_guardian_paused),
                None => None::<bool>,
            }),
    {
        match self.find_market_index(pool) {
            Some(i) => Some(self.markets[i].borrow_guardian_paused),
            None => None,
        }
    }

    /// The borrow cap of `pool` (0 means unlimited); `None` when not listed.
    pub fn borrow_cap(&self, pool: AccountId) -> (r: Option<Balance>)
        ensures
            r == (match market_at(self.markets@, pool) {
                Some(m) => Some(m.borrow_cap),
                None => None::<Balance>,
            }),
    {
        match self.find_market_index(pool) {
            Some(i) => Some(self.markets[i].borrow_cap),
            None => None,
        }
    }

    /// Whether seizing collateral is globally paused.
    pub fn seize_guardian_paused(&self) -> (r: bool)
        ensures
            r == self.seize_guardian_paused,
    {
        self.seize_guardian_paused
    }

    /// Whether share transfers are globally paused.
    pub fn transfer_guardian_paused(&self) -> (r: bool)
        ensures
            r == self.transfer_guardian_paused,
    {
        self.transfer_guardian_paused
    }

    /// The configured price oracle, if any.
    pub fn oracle(&self) -> (r: Option<AccountId>)
        ensures
            r == self.oracle,
    {
        self.oracle
    }

    /// The close factor bounding one liquidation's repayment.
    pub fn close_factor_mantissa(&self) -> (r: Mantissa)
        ensures
            r == self.close_factor_mantissa,
    {
        self.close_factor_mantissa
    }

    /// The liquidation incentive multiplier.
    pub fn liquidation_incentive_mantissa(&self) -> (r: Mantissa)
        ensures
            r == self.liquidation_incentive_mantissa,
    {
        self.liquidation_incentive_mantissa
    }

    /// The configured manager, if any.
    pub fn manager(&self) -> (r: Option<AccountId>)
        ensures
            r == self.manager,
    {
        self.manager
    }

    /// The configured flashloan gateway, if any.
    pub fn flashloan_gateway(&self) -> (r: Option<AccountId>)
        ensures
            r == self.flashloan_gateway,
    {
        self.flashloan_gateway
    }

    /// The observability events recorded so far, oldest first.
    pub fn events(&self) -> (r: &Vec<Event>)
        ensures
            r@ == self.events@,
    {
        &self.events
    }

    /// Configures the price oracle. Manager-gated; records one event with
    /// the old and new reference on success, changes nothing on error.
    pub fn set_price_oracle(&mut self, caller: AccountId, new_oracle: AccountId) -> (r: Result<
        (),
        Error,
    >)
        ensures
            r == manager_gate(*old(self), caller),
            r is Err ==> *final(self) == *old(self),
            r is Ok ==> updated_with_event(
                (Controller { oracle: Some(new_oracle), ..*old(self) }),
                *final(self),
                (Event::NewPriceOracle {
                    old_value: old(self).oracle,
                    new_value: Some(new_oracle),
                }),
            ),
    {
        match self.assert_manager(caller) {
            Err(e) => {
                return Err(e);
            },
            Ok(()) => {},
        }
        let previous = self.oracle;
        self.oracle = Some(new_oracle);
        self.events.push(
            Event::NewPriceOracle { old_value: previous, new_value: Some(new_oracle) },
        );
        Ok(())
    }

    /// Configures the flashloan gateway. Manager-gated; records one event
    /// on success, changes nothing on error.
    pub fn set_flashloan_gateway(
        &mut self,
        caller: AccountId,
        new_flashloan_gateway: AccountId,
    ) -> (r: Result<(), Error>)
        ensures
            r == manager_gate(*old(self), caller),
            r is Err ==> *final(self) == *old(self),
            r is Ok ==> updated_with_event(
                (Controller { flashloan_gateway: Some(new_flashloan_gateway), ..*old(self) }),
                *final(self),
                (Event::NewFlashloanGateway {
                    old_value: old(self).flashloan_gateway,
                    new_value: Some(new_flashloan_gateway),
                }),
            ),
    {
        match self.assert_manager(caller) {
            Err(e) => {
                return Err(e);
            },
            Ok(()) => {},
        }
        let previous = self.flashloan_gateway;
        self.flashloan_gateway = Some(new_flashloan_gateway);
        self.events.push(
            Event::NewFlashloanGateway {
                old_value: previous,
                new_value: Some(new_flashloan_gateway),
            },
        );
        Ok(())
    }

    /// Sets the close factor. Manager-gated; records one event carrying the
    /// old and new mantissa on success, changes nothing on error.
    pub fn set_close_factor_mantissa(
        &mut self,
        caller: AccountId,
        new_close_factor_mantissa: Mantissa,
    ) -> (r: Result<(), Error>)
        ensures
            r == manager_gate(*old(self), caller),
            r is Err ==> *final(self) == *old(self),
            r is Ok ==> updated_with_event(
                (Controller { close_factor_mantissa: new_close_factor_mantissa, ..*old(self) }),
                *final(self),
                (Event::NewCloseFactor {
                    old_value: old(self).close_factor_mantissa,
                    new_value: new_close_factor_mantissa,
                }),
            ),
    {
        match self.assert_manager(caller) {
            Err(e) => {
                return Err(e);
            },
            Ok(()) => {},
        }
        let previous = self.close_factor_mantissa;
        self.close_factor_mantissa = new_close_factor_mantissa;
        self.events.push(
            Event::NewCloseFactor { old_value: previous, new_value: new_close_factor_mantissa },
        );
        Ok(())
    }

    /// Sets the liquidation incentive. Manager-gated; records one event on
    /// success, changes nothing on error.
    pub fn set_liquidation_incentive_mantissa(
        &mut self,
        caller: AccountId,
        new_liquidation_incentive_mantissa: Mantissa,
    ) -> (r: Result<(), Error>)
        ensures
            r == manager_gate(*old(self), caller),
            r is Err ==> *final(self) == *old(self),
            r is Ok ==> updated_with_event(
                (Controller {
                    liquidation_incentive_mantissa: new_liquidation_incentive_mantissa,
                    ..*old(self)
                }),
                *final(self),
                (Event::NewLiquidationIncentive {
                    old_value: old(self).liquidation_incentive_mantissa,
                    new_value: new_liquidation_incentive_mantissa,
                }),
            ),
    {
        match self.assert_manager(caller) {
            Err(e) => {
                return Err(e);
            },
            Ok(()) => {},
        }
        let previous = self.liquidation_incentive_mantissa;
        self.liquidation_incentive_mantissa = new_liquidation_incentive_mantissa;
        self.events.push(
            Event::NewLiquidationIncentive {
                old_value: previous,
                new_value: new_liquidation_incentive_mantissa,
            },
        );
        Ok(())
    }

    /// Globally pauses or unpauses collateral seizing. Manager-gated;
    /// records one event on success, changes nothing on error.
    pub fn set_seize_guardian_paused(&mut self, caller: AccountId, paused: bool) -> (r: Result<
        (),
        Error,
    >)
        ensures
            r == manager_gate(*old(self), caller),
            r is Err ==> *final(self) == *old(self),
            r is Ok ==> updated_with_event(
                (Controller { seize_guardian_paused: paused, ..*old(self) }),
                *final(self),
                (Event::ActionPaused { action: GlobalAction::Seize, paused }),
            ),
    {
        match self.assert_manager(caller) {
            Err(e) => {
                return Err(e);
            },
            Ok(()) => {},
        }
        self.seize_guardian_paused = paused;
        self.events.push(Event::ActionPaused { action: GlobalAction::Seize, paused });
        Ok(())
    }

    /// Globally pauses or unpauses share transfers. Manager-gated; records
    /// one event on success, changes nothing on error.
    pub fn set_transfer_guardian_paused(&mut self, caller: AccountId, paused: bool) -> (r: Result<
        (),
        Error,
    >)
        ensures
            r == manager_gate(*old(self), caller),
            r is Err ==> *final(self) == *old(self),
            r is Ok ==> updated_with_event(
                (Controller { transfer_guardian_paused: paused, ..*old(self) }),
                *final(self),
                (Event::ActionPaused { action: GlobalAction::Transfer, paused }),
            ),
    {
        match self.assert_manager(caller) {
            Err(e) => {
                return Err(e);
            },
            Ok(()) => {},
        }
        self.transfer_guardian_paused = paused;
        self.events.push(Event::ActionPaused { action: GlobalAction::Transfer, paused });
        Ok(())
    }


    /// Registers a new market with default risk state: flags clear, no
    /// collateral factor, unlimited borrow cap. Manager-gated; rejects an
    /// already-listed pool; records one event on success.
    pub fn support_market(&mut self, caller: AccountId, pool: AccountId, underlying: AccountId) -> (r: Result<(), Error>)
        ensures
            r == support_market_outcome(*old(self), caller, pool),
            r is Err ==> *final(self) == *old(self),
            r is Ok ==> ({
                let m = Market {
                    pool,
                    underlying,
                    collateral_factor_mantissa: None,
                    mint_guardian_paused: false,
                    borrow_guardian_paused: false,
                    borrow_cap: 0,
                };
                &&& final(self).markets@ == old(self).markets@.push(m)
                &&& market_at(final(self).markets@, pool) == Some(m)
                &&& forall|q: AccountId|
                    q != pool ==> market_at(final(self).markets@, q) == market_at(
                        old(self).markets@,
                        q,
                    )
                &&& final(self).events@ == old(self).events@.push(Event::MarketListed { pool })
                &&& globals_unchanged(*old(self), *final(self))
            }),
    {
        match self.assert_manager(caller) {
            Err(e) => {
                return Err(e);
            },
            Ok(()) => {},
        }
        if self.find_market_index(pool).is_some() {
            return Err(Error::MarketAlreadyListed);
        }
        let m = Market {
            pool,
            underlying,
            collateral_factor_mantissa: None,
            mint_guardian_paused: false,
            borrow_guardian_paused: false,
            borrow_cap: 0,
        };
        proof {
            lemma_market_at_push_absent(self.markets@, m);
        }
        self.markets.push(m);
        self.events.push(Event::MarketListed { pool });
        Ok(())
    }

    /// Registers a new market and stores a validated collateral factor in
    /// the same operation. Manager-gated; records one event on success.
    pub fn support_market_with_collateral_factor_mantissa(
        &mut self,
        caller: AccountId,
        pool: AccountId,
        underlying: AccountId,
        collateral_factor_mantissa: Mantissa,
        prices: &PriceOracle,
    ) -> (r: Result<(), Error>)
        ensures
            r == support_market_with_collateral_factor_outcome(
                *old(self),
                caller,
                pool,
                underlying,
                collateral_factor_mantissa,
                prices.fixed_prices@,
            ),
            r is Err ==> *final(self) == *old(self),
            r is Ok ==> ({
                let m = Market {
                    pool,
                    underlying,
                    collateral_factor_mantissa: Some(collateral_factor_mantissa),
                    mint_guardian_paused: false,
                    borrow_guardian_paused: false,
                    borrow_cap: 0,
                };
                &&& final(self).markets@ == old(self).markets@.push(m)
                &&& market_at(final(self).markets@, pool) == Some(m)
                &&& forall|q: AccountId|
                    q != pool ==> market_at(final(self).markets@, q) == market_at(
                        old(self).markets@,
                        q,
                    )
                &&& final(self).events@ == old(self).events@.push(Event::MarketListed { pool })
                &&& globals_unchanged(*old(self), *final(self))
            }),
    {
        match self.assert_manager(caller) {
            Err(e) => {
                return Err(e);
            },
            Ok(()) => {},
        }
        if self.find_market_index(pool).is_some() {
            return Err(Error::MarketAlreadyListed);
        }
        if collateral_factor_mantissa == 0
            || collateral_factor_mantissa > COLLATERAL_FACTOR_MAX_MANTISSA {
            return Err(Error::InvalidCollateralFactor);
        }
        if self.oracle.is_none() {
            return Err(Error::OracleIsNotSet);
        }
        match prices.get_price(underlying) {
            None => {
                return Err(Error::PriceError);
            },
            Some(p) => {
                if p == 0 {
                    return Err(Error::PriceError);
                }
            },
        }
        let m = Market {
            pool,
            underlying,
            collateral_factor_mantissa: Some(collateral_factor_mantissa),
            mint_guardian_paused: false,
            borrow_guardian_paused: false,
            borrow_cap: 0,
        };
        proof {
            lemma_market_at_push_absent(self.markets@, m);
        }
        self.markets.push(m);
        self.events.push(Event::MarketListed { pool });
        Ok(())
    }

    /// Validates and stores a new collateral factor for a listed market.
    /// Manager-gated; records exactly one event carrying the old factor
    /// (zero when none was set) and the new one; changes nothing on error.
    pub fn set_collateral_factor_mantissa(
        &mut self,
        caller: AccountId,
        pool: AccountId,
        new_collateral_factor_mantissa: Mantissa,
        prices: &PriceOracle,
    ) -> (r: Result<(), Error>)
        ensures
            r == set_collateral_factor_outcome(
                *old(self),
                caller,
                pool,
                new_collateral_factor_mantissa,
                prices.fixed_prices@,
            ),
            r is Err ==> *final(self) == *old(self),
            r is Ok ==> ({
                let m0 = market_at(old(self).markets@, pool).unwrap();
                let m1 = Market {
                    collateral_factor_mantissa: Some(new_collateral_factor_mantissa),
                    ..m0
                };
                &&& market_at(final(self).markets@, pool) == Some(m1)
                &&& forall|q: AccountId|
                    q != pool ==> market_at(final(self).markets@, q) == market_at(
                        old(self).markets@,
                        q,
                    )
                &&& final(self).markets@.len() == old(self).markets@.len()
                &&& final(self).events@ == old(self).events@.push(
                    Event::NewCollateralFactor {
                        pool,
                        old_value: (match m0.collateral_factor_mantissa {
                            Some(v) => v,
                            None => 0,
                        }),
                        new_value: new_collateral_factor_mantissa,
                    },
                )
                &&& globals_unchanged(*old(self), *final(self))
            }),
    {
        match self.assert_manager(caller) {
            Err(e) => {
                return Err(e);
            },
            Ok(()) => {},
        }
        if new_collateral_factor_mantissa == 0
            || new_collateral_factor_mantissa > COLLATERAL_FACTOR_MAX_MANTISSA {
            return Err(Error::InvalidCollateralFactor);
        }
        if self.oracle.is_none() {
            return Err(Error::OracleIsNotSet);
        }
        let i = match self.find_market_index(pool) {
            None => {
                return Err(Error::MarketNotListed);
            },
            Some(i) => i,
        };
        let m0 = self.markets[i];
        match prices.get_price(m0.underlying) {
            None => {
                return Err(Error::PriceError);
            },
            Some(p) => {
                if p == 0 {
                    return Err(Error::PriceError);
                }
            },
        }
        let old_value = match m0.collateral_factor_mantissa {
            Some(v) => v,
            None => 0,
        };
        let m1 = Market {
            collateral_factor_mantissa: Some(new_collateral_factor_mantissa),
            ..m0
        };
        proof {
            lemma_market_at_update(self.markets@, i as int, m1, pool);
        }
        self.markets[i] = m1;
        self.events.push(
            Event::NewCollateralFactor {
                pool,
                old_value,
                new_value: new_collateral_factor_mantissa,
            },
        );
        Ok(())
    }

    /// Pauses or unpauses minting for a listed market. Manager-gated;
    /// records one event on success, changes nothing on error.
    pub fn set_mint_guardian_paused(
        &mut self,
        caller: AccountId,
        pool: AccountId,
        paused: bool,
    ) -> (r: Result<(), Error>)
        ensures
            r == market_admin_gate(*old(self), caller, pool),
            r is Err ==> *final(self) == *old(self),
            r is Ok ==> ({
                let m0 = market_at(old(self).markets@, pool).unwrap();
                let m1 = Market { mint_guardian_paused: paused, ..m0 };
                &&& market_at(final(self).markets@, pool) == Some(m1)
                &&& forall|q: AccountId|
                    q != pool ==> market_at(final(self).markets@, q) == market_at(
                        old(self).markets@,
                        q,
                    )
                &&& final(self).markets@.len() == old(self).markets@.len()
                &&& final(self).events@ == old(self).events@.push(
                    Event::PoolActionPaused { pool, action: PoolAction::Mint, paused },
                )
                &&& globals_unchanged(*old(self), *final(self))
            }),
    {
        match self.assert_manager(caller) {
            Err(e) => {
                return Err(e);
            },
            Ok(()) => {},
        }
        let i = match self.find_market_index(pool) {
            None => {
                return Err(Error::MarketNotListed);
            },
            Some(i) => i,
        };
        let m1 = Market { mint_guardian_paused: paused, ..self.markets[i] };
        proof {
            lemma_market_at_update(self.markets@, i as int, m1, pool);
        }
        self.markets[i] = m1;
        self.events.push(Event::PoolActionPaused { pool, action: PoolAction::Mint, paused });
        Ok(())
    }

    /// Pauses or unpauses borrowing for a listed market. Manager-gated;
    /// records one event on success, changes nothing on error.
    pub fn set_borrow_guardian_paused(
        &mut self,
        caller: AccountId,
        pool: AccountId,
        paused: bool,
    ) -> (r: Result<(), Error>)
        ensures
            r == market_admin_gate(*old(self), caller, pool),
            r is Err ==> *final(self) == *old(self),
            r is Ok ==> ({
                let m0 = market_at(old(self).markets@, pool).unwrap();
                let m1 = Market { borrow_guardian_paused: paused, ..m0 };
                &&& market_at(final(self).markets@, pool) == Some(m1)
                &&& forall|q: AccountId|
                    q != pool ==> market_at(final(self).markets@, q) == market_at(
                        old(self).markets@,
                        q,
                    )
                &&& final(self).markets@.len() == old(self).markets@.len()
                &&& final(self).events@ == old(self).events@.push(
                    Event::PoolActionPaused { pool, action: PoolAction::Borrow, paused },
                )
                &&& globals_unchanged(*old(self), *final(self))
            }),
    {
        match self.assert_manager(caller) {
            Err(e) => {
                return Err(e);
            },
            Ok(()) => {},
        }
        let i = match self.find_market_index(pool) {
            None => {
                return Err(Error::MarketNotListed);
            },
            Some(i) => i,
        };
        let m1 = Market { borrow_guardian_paused: paused, ..self.markets[i] };
        proof {
            lemma_market_at_update(self.markets@, i as int, m1, pool);
        }
        self.markets[i] = m1;
        self.events.push(Event::PoolActionPaused { pool, action: PoolAction::Borrow, paused });
        Ok(())
    }

    /// Sets a listed market's borrow cap (0 removes the limit).
    /// Manager-gated; records one event on success, changes nothing on
    /// error.
    pub fn set_borrow_cap(&mut self, caller: AccountId, pool: AccountId, new_cap: Balance) -> (r: Result<(), Error>)
        ensures
            r == market_admin_gate(*old(self), caller, pool),
            r is Err ==> *final(self) == *old(self),
            r is Ok ==> ({
                let m0 = market_at(old(self).markets@, pool).unwrap();
                let m1 = Market { borrow_cap: new_cap, ..m0 };
                &&& market_at(final(self).markets@, pool) == Some(m1)
                &&& forall|q: AccountId|
                    q != pool ==> market_at(final(self).markets@, q) == market_at(
                        old(self).markets@,
                        q,
                    )
                &&& final(self).markets@.len() == old(self).markets@.len()
                &&& final(self).events@ == old(self).events@.push(
                    Event::NewBorrowCap { pool, new_value: new_cap },
                )
                &&& globals_unchanged(*old(self), *final(self))
            }),
    {
        match self.assert_manager(caller) {
            Err(e) => {
                return Err(e);
            },
            Ok(()) => {},
        }
        let i = match self.find_market_index(pool) {
            None => {
                return Err(Error::MarketNotListed);
            },
            Some(i) => i,
        };
        let m1 = Market { borrow_cap: new_cap, ..self.markets[i] };
        proof {
            lemma_market_at_update(self.markets@, i as int, m1, pool);
        }
        self.markets[i] = m1;
        self.events.push(Event::NewBorrowCap { pool, new_value: new_cap });
        Ok(())
    }

    /// Gate run before a supply: the market must be listed with its mint
    /// flag clear. A missing flag counts as paused.
    pub fn mint_allowed(&self, pool: AccountId, _minter: AccountId, _mint_amount: Balance) -> (r: Result<(), Error>)
        ensures
            r == mint_allowed_outcome(*self, pool),
    {
        match self.find_market_index(pool) {
            Some(i) => {
                if self.markets[i].mint_guardian_paused {
                    Err(Error::MintIsPaused)
                } else {
                    Ok(())
                }
            },
            None => Err(Error::MintIsPaused),
        }
    }

    /// Hook run after a supply; no invariant is checked today.
    pub fn mint_verify(
        &self,
        _pool: AccountId,
        _minter: AccountId,
        _mint_amount: Balance,
        _mint_tokens: Balance,
    ) -> (r: Result<(), Error>)
        ensures
            r == Ok::<(), Error>(()),
    {
        Ok(())
    }

    /// Hook run after a withdrawal; no invariant is checked today.
    pub fn redeem_verify(
        &self,
        _pool: AccountId,
        _redeemer: AccountId,
        _redeem_amount: Balance,
    ) -> (r: Result<(), Error>)
        ensures
            r == Ok::<(), Error>(()),
    {
        Ok(())
    }

    /// Hook run after a borrow; no invariant is checked today.
    pub fn borrow_verify(
        &self,
        _pool: AccountId,
        _borrower: AccountId,
        _borrow_amount: Balance,
    ) -> (r: Result<(), Error>)
        ensures
            r == Ok::<(), Error>(()),
    {
        Ok(())
    }

    /// Gate run before a repayment: always allowed.
    pub fn repay_borrow_allowed(
        &self,
        _pool: AccountId,
        _payer: AccountId,
        _borrower: AccountId,
        _repay_amount: Balance,
    ) -> (r: Result<(), Error>)
        ensures
            r == Ok::<(), Error>(()),
    {
        Ok(())
    }

    /// Hook run after a repayment; no invariant is checked today.
    pub fn repay_borrow_verify(
        &self,
        _pool: AccountId,
        _payer: AccountId,
        _borrower: AccountId,
        _repay_amount: Balance,
        _borrower_index: u128,
    ) -> (r: Result<(), Error>)
        ensures
            r == Ok::<(), Error>(()),
    {
        Ok(())
    }

    /// Hook run after a liquidation; no invariant is checked today.
    pub fn liquidate_borrow_verify(
        &self,
        _pool_borrowed: AccountId,
        _pool_collateral: AccountId,
        _liquidator: AccountId,
        _borrower: AccountId,
        _repay_amount: Balance,
        _seize_tokens: Balance,
    ) -> (r: Result<(), Error>)
        ensures
            r == Ok::<(), Error>(()),
    {
        Ok(())
    }

    /// Gate run before a seize: the global pause flag must be clear and
    /// both markets listed.
    pub fn seize_allowed(
        &self,
        pool_collateral: AccountId,
        pool_borrowed: AccountId,
        _liquidator: AccountId,
        _borrower: AccountId,
        _seize_tokens: Balance,
    ) -> (r: Result<(), Error>)
        ensures
            r == seize_allowed_outcome(*self, pool_collateral, pool_borrowed),
    {
        if self.seize_guardian_paused {
            return Err(Error::SeizeIsPaused);
        }
        if !self.is_listed(pool_collateral) || !self.is_listed(pool_borrowed) {
            return Err(Error::MarketNotListed);
        }
        Ok(())
    }

    /// Hook run after a seize; no invariant is checked today.
    pub fn seize_verify(
        &self,
        _pool_collateral: AccountId,
        _pool_borrowed: AccountId,
        _liquidator: AccountId,
        _borrower: AccountId,
        _seize_tokens: Balance,
    ) -> (r: Result<(), Error>)
        ensures
            r == Ok::<(), Error>(()),
    {
        Ok(())
    }

    /// Hook run after a transfer; no invariant is checked today.
    pub fn transfer_verify(
        &self,
        _pool: AccountId,
        _src: AccountId,
        _dst: AccountId,
        _transfer_tokens: Balance,
    ) -> (r: Result<(), Error>)
        ensures
            r == Ok::<(), Error>(()),
    {
        Ok(())
    }


    /// The account's participating markets for a given target, in
    /// registration order.
    fn account_assets_with(
        &self,
        caller: AccountId,
        token_modify: Option<AccountId>,
        snapshots: &Vec<PoolSnapshot>,
    ) -> (r: Vec<AccountId>)
        ensures
            r@ == account_assets_spec(self.markets@, caller, token_modify, snapshots@),
    {
        let ghost ms = self.markets@;
        let n = self.markets.len();
        let mut out: Vec<AccountId> = Vec::new();
        let mut i: usize = 0;
        proof {
            assert(ms.take(0) =~= Seq::<Market>::empty());
        }
        while i < n
            invariant
                0 <= i <= n,
                n == ms.len(),
                self.markets@ == ms,
                out@ == account_assets_spec(ms.take(i as int), caller, token_modify, snapshots@),
            decreases n - i,
        {
            let m = self.markets[i];
            let part = if m.pool == caller {
                false
            } else {
                let is_target = match token_modify {
                    Some(t) => t == m.pool,
                    None => false,
                };
                if is_target {
                    true
                } else {
                    match find_snapshot_index(snapshots, m.pool) {
                        Some(j) => {
                            let s = &snapshots[j];
                            s.account_balance > 0 || s.account_borrow_balance > 0
                        },
                        None => false,
                    }
                }
            };
            proof {
                assert(part == participates(ms[i as int], caller, token_modify, snapshots@));
                assert(ms.take(i as int + 1).drop_last() =~= ms.take(i as int));
                assert(ms.take(i as int + 1).last() == ms[i as int]);
            }
            if part {
                out.push(m.pool);
            }
            i = i + 1;
        }
        proof {
            assert(ms.take(n as int) =~= ms);
        }
        out
    }

    /// The markets in which the account holds collateral or debt, skipping
    /// the calling pool.
    pub fn account_assets(
        &self,
        caller: AccountId,
        _account: AccountId,
        snapshots: &Vec<PoolSnapshot>,
    ) -> (r: Vec<AccountId>)
        ensures
            r@ == account_assets_spec(self.markets@, caller, None, snapshots@),
    {
        self.account_assets_with(caller, None, snapshots)
    }

    /// Valuation parameters of one participating market, per `walk_param`.
    fn walk_param_exec(
        &self,
        snapshots: &Vec<PoolSnapshot>,
        prices: &PriceOracle,
        asset: AccountId,
    ) -> (r: Result<HypotheticalAccountLiquidityCalculationParam, Error>)
        ensures
            r == walk_param(*self, snapshots@, prices.fixed_prices@, asset),
    {
        let s = match find_snapshot_index(snapshots, asset) {
            Some(k) => snapshots[k],
            None => {
                return Err(Error::PriceError);
            },
        };
        let u = match s.underlying {
            Some(u) => u,
            None => {
                return Err(Error::PriceError);
            },
        };
        let pr = match prices.get_price(u) {
            Some(p) => p,
            None => {
                return Err(Error::PriceError);
            },
        };
        if pr == 0 {
            return Err(Error::PriceError);
        }
        let cf = match self.collateral_factor_mantissa(asset) {
            Some(cf) => cf,
            None => {
                return Err(Error::MarketNotListed);
            },
        };
        Ok(
            HypotheticalAccountLiquidityCalculationParam {
                asset,
                decimals: s.decimals,
                token_balance: s.account_balance,
                borrow_balance: s.account_borrow_balance,
                exchange_rate_mantissa: s.exchange_rate,
                collateral_factor_mantissa: cf,
                oracle_price_mantissa: pr,
            },
        )
    }

    /// Valuation parameters of the calling pool, per `caller_pool_param`.
    fn caller_pool_param_exec(
        &self,
        prices: &PriceOracle,
        pool: AccountId,
        attrs: &PoolAttributes,
    ) -> (r: Result<HypotheticalAccountLiquidityCalculationParam, Error>)
        ensures
            r == caller_pool_param(*self, prices.fixed_prices@, pool, *attrs),
    {
        let u = match attrs.underlying {
            Some(u) => u,
            None => {
                return Err(Error::UnderlyingIsNotSet);
            },
        };
        let pr = match prices.get_price(u) {
            Some(p) => p,
            None => {
                return Err(Error::PriceError);
            },
        };
        if pr == 0 {
            return Err(Error::PriceError);
        }
        let cf = match self.collateral_factor_mantissa(pool) {
            Some(cf) => cf,
            None => {
                return Err(Error::MarketNotListed);
            },
        };
        Ok(
            HypotheticalAccountLiquidityCalculationParam {
                asset: pool,
                decimals: attrs.decimals,
                token_balance: attrs.account_balance,
                borrow_balance: attrs.account_borrow_balance,
                exchange_rate_mantissa: attrs.exchange_rate,
                collateral_factor_mantissa: cf,
                oracle_price_mantissa: pr,
            },
        )
    }

    /// Hypothetical account liquidity with every re-entrancy and pricing
    /// rule applied, per `hypo_liquidity_outcome`. At most one side of a
    /// successful pair is non-zero.
    pub fn hypothetical_account_liquidity(
        &self,
        caller: AccountId,
        token_modify: Option<AccountId>,
        redeem_tokens: Balance,
        borrow_amount: Balance,
        caller_pool: Option<(AccountId, PoolAttributes)>,
        snapshots: &Vec<PoolSnapshot>,
        prices: &PriceOracle,
    ) -> (r: Result<(u128, u128), Error>)
        ensures
            r == hypo_liquidity_outcome(
                *self,
                caller,
                token_modify,
                redeem_tokens,
                borrow_amount,
                caller_pool,
                snapshots@,
                prices.fixed_prices@,
            ),
            match r {
                Ok(pair) => pair.0 == 0 || pair.1 == 0,
                Err(_) => true,
            },
    {
        if self.oracle.is_none() {
            return Err(Error::OracleIsNotSet);
        }
        let mut params: Vec<HypotheticalAccountLiquidityCalculationParam> = Vec::new();
        match caller_pool {
            None => {},
            Some(cp) => {
                match self.caller_pool_param_exec(prices, cp.0, &cp.1) {
                    Err(e) => {
                        return Err(e);
                    },
                    Ok(p) => {
                        params.push(p);
                    },
                }
            },
        }
        let ghost head = params@;
        let assets = self.account_assets_with(caller, token_modify, snapshots);
        let ghost av = assets@;
        let n = assets.len();
        let mut i: usize = 0;
        proof {
            assert(av.take(0) =~= Seq::<AccountId>::empty());
            assert(params@.skip(head.len() as int) =~= Seq::<
                HypotheticalAccountLiquidityCalculationParam,
            >::empty());
        }
        while i < n
            invariant
                0 <= i <= n,
                n == av.len(),
                assets@ == av,
                self.oracle is Some,
                av == account_assets_spec(self.markets@, caller, token_modify, snapshots@),
                head == (match caller_pool {
                    None => Seq::<HypotheticalAccountLiquidityCalculationParam>::empty(),
                    Some(cp) => seq![
                        caller_pool_param(*self, prices.fixed_prices@, cp.0, cp.1).unwrap(),
                    ],
                }),
                (match caller_pool {
                    None => true,
                    Some(cp) => caller_pool_param(*self, prices.fixed_prices@, cp.0, cp.1) is Ok,
                }),
                head.len() <= params@.len(),
                params@.take(head.len() as int) == head,
                walk_params(*self, snapshots@, prices.fixed_prices@, av.take(i as int)) == Ok::<
                    Seq<HypotheticalAccountLiquidityCalculationParam>,
                    Error,
                >(params@.skip(head.len() as int)),
            decreases n - i,
        {
            proof {
                assert(av.take(i as int + 1).drop_last() =~= av.take(i as int));
                assert(av.take(i as int + 1).last() == av[i as int]);
            }
            match self.walk_param_exec(snapshots, prices, assets[i]) {
                Err(e) => {
                    proof {
                        lemma_walk_params_prefix_err(
                            *self,
                            snapshots@,
                            prices.fixed_prices@,
                            av,
                            i as int + 1,
                        );
                    }
                    return Err(e);
                },
                Ok(p) => {
                    let ghost before = params@;
                    params.push(p);
                    proof {
                        assert(params@.take(head.len() as int) =~= before.take(
                            head.len() as int,
                        ));
                        assert(params@.skip(head.len() as int) =~= before.skip(
                            head.len() as int,
                        ).push(p));
                    }
                },
            }
            i = i + 1;
        }
        proof {
            assert(av.take(n as int) =~= av);
            assert(head + params@.skip(head.len() as int) =~= params@);
        }
        let input = GetHypotheticalAccountLiquidityInput {
            asset_params: params,
            token_modify,
            redeem_tokens,
            borrow_amount,
        };
        crate::math::get_hypothetical_account_liquidity(&input)
    }

    /// Current account liquidity: the surplus and shortfall of the account
    /// as it stands, with no hypothetical change.
    pub fn get_account_liquidity(
        &self,
        caller: AccountId,
        _account: AccountId,
        snapshots: &Vec<PoolSnapshot>,
        prices: &PriceOracle,
    ) -> (r: Result<(u128, u128), Error>)
        ensures
            r == hypo_liquidity_outcome(
                *self,
                caller,
                None,
                0,
                0,
                None,
                snapshots@,
                prices.fixed_prices@,
            ),
            match r {
                Ok(pair) => pair.0 == 0 || pair.1 == 0,
                Err(_) => true,
            },
    {
        self.hypothetical_account_liquidity(caller, None, 0, 0, None, snapshots, prices)
    }

    /// Account liquidity after hypothetically redeeming `redeem_tokens`
    /// shares of `token` and borrowing `borrow_amount` of its underlying.
    pub fn get_hypothetical_account_liquidity(
        &self,
        caller: AccountId,
        _account: AccountId,
        token: AccountId,
        redeem_tokens: Balance,
        borrow_amount: Balance,
        snapshots: &Vec<PoolSnapshot>,
        prices: &PriceOracle,
    ) -> (r: Result<(u128, u128), Error>)
        ensures
            r == hypo_liquidity_outcome(
                *self,
                caller,
                Some(token),
                redeem_tokens,
                borrow_amount,
                None,
                snapshots@,
                prices.fixed_prices@,
            ),
            match r {
                Ok(pair) => pair.0 == 0 || pair.1 == 0,
                Err(_) => true,
            },
    {
        self.hypothetical_account_liquidity(
            caller,
            Some(token),
            redeem_tokens,
            borrow_amount,
            None,
            snapshots,
            prices,
        )
    }

    /// Gate run before a withdrawal of pool shares.
    pub fn redeem_allowed(
        &self,
        caller: AccountId,
        pool: AccountId,
        _redeemer: AccountId,
        redeem_amount: Balance,
        pool_attribute: Option<PoolAttributes>,
        snapshots: &Vec<PoolSnapshot>,
        prices: &PriceOracle,
    ) -> (r: Result<(), Error>)
        ensures
            r == redeem_allowed_outcome(
                *self,
                caller,
                pool,
                redeem_amount,
                pool_attribute,
                snapshots@,
                prices.fixed_prices@,
            ),
    {
        let caller_pool = match pool_attribute {
            Some(a) => Some((pool, a)),
            None => None,
        };
        match self.hypothetical_account_liquidity(
            caller,
            Some(pool),
            redeem_amount,
            0,
            caller_pool,
            snapshots,
            prices,
        ) {
            Err(e) => Err(e),
            Ok(pair) => {
                if pair.1 != 0 {
                    Err(Error::InsufficientLiquidity)
                } else {
                    Ok(())
                }
            },
        }
    }

    /// Gate run before a borrow.
    pub fn borrow_allowed(
        &self,
        caller: AccountId,
        pool: AccountId,
        _borrower: AccountId,
        borrow_amount: Balance,
        pool_attribute: Option<PoolAttributes>,
        snapshots: &Vec<PoolSnapshot>,
        prices: &PriceOracle,
    ) -> (r: Result<(), Error>)
        ensures
            r == borrow_allowed_outcome(
                *self,
                caller,
                pool,
                borrow_amount,
                pool_attribute,
                snapshots@,
                prices.fixed_prices@,
            ),
    {
        let m = match self.find_market_index(pool) {
            Some(i) => self.markets[i],
            None => {
                return Err(Error::BorrowIsPaused);
            },
        };
        if m.borrow_guardian_paused {
            return Err(Error::BorrowIsPaused);
        }
        if self.oracle.is_none() {
            return Err(Error::OracleIsNotSet);
        }
        let (total_borrow, caller_pool) = match pool_attribute {
            None => {
                let s = match find_snapshot_index(snapshots, pool) {
                    Some(k) => snapshots[k],
                    None => {
                        return Err(Error::PriceError);
                    },
                };
                let u = match s.underlying {
                    Some(u) => u,
                    None => {
                        return Err(Error::PriceError);
                    },
                };
                let pr = match prices.get_price(u) {
                    Some(p) => p,
                    None => {
                        return Err(Error::PriceError);
                    },
                };
                if pr == 0 {
                    return Err(Error::PriceError);
                }
                (s.total_borrows, None)
            },
            Some(a) => {
                let u = match a.underlying {
                    Some(u) => u,
                    None => {
                        return Err(Error::UnderlyingIsNotSet);
                    },
                };
                let pr = match prices.get_price(u) {
                    Some(p) => p,
                    None => {
                        return Err(Error::PriceError);
                    },
                };
                if pr == 0 {
                    return Err(Error::PriceError);
                }
                (a.total_borrows, Some((pool, a)))
            },
        };
        if m.borrow_cap != 0 {
            if m.borrow_cap < borrow_amount || total_borrow > m.borrow_cap - borrow_amount {
                return Err(Error::BorrowCapReached);
            }
        }
        match self.hypothetical_account_liquidity(
            caller,
            Some(pool),
            0,
            borrow_amount,
            caller_pool,
            snapshots,
            prices,
        ) {
            Err(e) => Err(e),
            Ok(pair) => {
                if pair.1 != 0 {
                    Err(Error::InsufficientLiquidity)
                } else {
                    Ok(())
                }
            },
        }
    }

    /// Gate run before a transfer of pool shares.
    pub fn transfer_allowed(
        &self,
        caller: AccountId,
        pool: AccountId,
        src: AccountId,
        _dst: AccountId,
        transfer_tokens: Balance,
        pool_attribute: Option<PoolAttributes>,
        snapshots: &Vec<PoolSnapshot>,
        prices: &PriceOracle,
    ) -> (r: Result<(), Error>)
        ensures
            r == transfer_allowed_outcome(
                *self,
                caller,
                pool,
                transfer_tokens,
                pool_attribute,
                snapshots@,
                prices.fixed_prices@,
            ),
    {
        if self.transfer_guardian_paused {
            return Err(Error::TransferIsPaused);
        }
        self.redeem_allowed(caller, pool, src, transfer_tokens, pool_attribute, snapshots, prices)
    }

    /// Gate run before a liquidation's repayment.
    pub fn liquidate_borrow_allowed(
        &self,
        caller: AccountId,
        pool_borrowed: AccountId,
        pool_collateral: AccountId,
        _liquidator: AccountId,
        _borrower: AccountId,
        repay_amount: Balance,
        pool_attribute: Option<PoolAttributes>,
        snapshots: &Vec<PoolSnapshot>,
        prices: &PriceOracle,
    ) -> (r: Result<(), Error>)
        ensures
            r == liquidate_borrow_allowed_outcome(
                *self,
                caller,
                pool_borrowed,
                pool_collateral,
                repay_amount,
                pool_attribute,
                snapshots@,
                prices.fixed_prices@,
            ),
    {
        if !self.is_listed(pool_borrowed) || !self.is_listed(pool_collateral) {
            return Err(Error::MarketNotListed);
        }
        let (caller_pool, borrow_balance) = match pool_attribute {
            Some(a) => (Some((pool_borrowed, a)), a.account_borrow_balance),
            None => {
                let bb = match find_snapshot_index(snapshots, pool_borrowed) {
                    Some(k) => snapshots[k].account_borrow_balance,
                    None => 0,
                };
                (None, bb)
            },
        };
        let pair = match self.hypothetical_account_liquidity(
            caller,
            None,
            0,
            0,
            caller_pool,
            snapshots,
            prices,
        ) {
            Err(e) => {
                return Err(e);
            },
            Ok(pair) => pair,
        };
        if pair.1 == 0 {
            return Err(Error::InsufficientShortfall);
        }
        match wide_mul_div(
            self.close_factor_mantissa,
            borrow_balance,
            1,
            1,
            MANTISSA_ONE,
            1,
            1,
            1,
        ) {
            Some(max_close) => {
                if repay_amount > max_close {
                    Err(Error::TooMuchRepay)
                } else {
                    Ok(())
                }
            },
            None => Ok(()),
        }
    }

    /// One side of a liquidation's pricing, per `seize_side`.
    fn seize_side_exec(
        &self,
        pool: AccountId,
        attrs: Option<PoolAttributesForSeizeCalculation>,
        snapshots: &Vec<PoolSnapshot>,
        prices: &PriceOracle,
    ) -> (r: Result<(u128, u8), Error>)
        ensures
            r == seize_side(pool, attrs, snapshots@, prices.fixed_prices@),
            match r {
                Ok(v) => v.0 > 0,
                Err(_) => true,
            },
    {
        let (u, d) = match attrs {
            Some(a) => {
                match a.underlying {
                    Some(u) => (u, a.decimals),
                    None => {
                        return Err(Error::UnderlyingIsNotSet);
                    },
                }
            },
            None => {
                let s = match find_snapshot_index(snapshots, pool) {
                    Some(k) => snapshots[k],
                    None => {
                        return Err(Error::PriceError);
                    },
                };
                match s.underlying {
                    Some(u) => (u, s.decimals),
                    None => {
                        return Err(Error::PriceError);
                    },
                }
            },
        };
        let pr = match prices.get_price(u) {
            Some(p) => p,
            None => {
                return Err(Error::PriceError);
            },
        };
        if pr == 0 {
            return Err(Error::PriceError);
        }
        Ok((pr, d))
    }

    /// Number of collateral shares a liquidator seizes for `repay_amount`,
    /// priced with the oracle and the configured liquidation incentive.
    /// The exchange rate must be non-zero.
    pub fn liquidate_calculate_seize_tokens(
        &self,
        pool_borrowed: AccountId,
        pool_collateral: AccountId,
        exchange_rate_mantissa: Mantissa,
        repay_amount: Balance,
        pool_borrowed_attributes: Option<PoolAttributesForSeizeCalculation>,
        pool_collateral_attributes: Option<PoolAttributesForSeizeCalculation>,
        snapshots: &Vec<PoolSnapshot>,
        prices: &PriceOracle,
    ) -> (r: Result<Balance, Error>)
        requires
            exchange_rate_mantissa > 0,
        ensures
            r == seize_calc_outcome(
                *self,
                pool_borrowed,
                pool_collateral,
                exchange_rate_mantissa,
                repay_amount,
                pool_borrowed_attributes,
                pool_collateral_attributes,
                snapshots@,
                prices.fixed_prices@,
            ),
    {
        if self.oracle.is_none() {
            return Err(Error::OracleIsNotSet);
        }
        let b = match self.seize_side_exec(pool_borrowed, pool_borrowed_attributes, snapshots, prices) {
            Ok(v) => v,
            Err(e) => {
                return Err(e);
            },
        };
        let cl = match self.seize_side_exec(
            pool_collateral,
            pool_collateral_attributes,
            snapshots,
            prices,
        ) {
            Ok(v) => v,
            Err(e) => {
                return Err(e);
            },
        };
        let input = LiquidateCalculateSeizeTokensInput {
            price_borrowed_mantissa: b.0,
            decimals_borrowed: b.1,
            price_collateral_mantissa: cl.0,
            decimals_collateral: cl.1,
            exchange_rate_mantissa,
            liquidation_incentive_mantissa: self.liquidation_incentive_mantissa,
            actual_repay_amount: repay_amount,
        };
        crate::math::liquidate_calculate_seize_tokens(&input)
    }


    /// Account-data inputs of one participating market, per
    /// `user_walk_param`.
    fn user_walk_param_exec(
        &self,
        snapshots: &Vec<PoolSnapshot>,
        prices: &PriceOracle,
        asset: AccountId,
    ) -> (r: Result<UserAccountParam, Error>)
        ensures
            r == user_walk_param(*self, snapshots@, prices.fixed_prices@, asset),
    {
        let cf = match self.collateral_factor_mantissa(asset) {
            Some(cf) => cf,
            None => {
                return Err(Error::MarketNotListed);
            },
        };
        let s = match find_snapshot_index(snapshots, asset) {
            Some(k) => snapshots[k],
            None => {
                return Err(Error::UnderlyingIsNotSet);
            },
        };
        let u = match s.underlying {
            Some(u) => u,
            None => {
                return Err(Error::UnderlyingIsNotSet);
            },
        };
        let pr = match prices.get_price(u) {
            Some(p) => p,
            None => {
                return Err(Error::PriceError);
            },
        };
        Ok(
            UserAccountParam {
                price: pr,
                ltv: cf,
                liquidation_threshold: s.liquidation_threshold,
                balance: s.account_balance,
                borrow: s.account_borrow_balance,
            },
        )
    }

    /// The account's aggregate position — collateral and debt value,
    /// weighted-average LTV and liquidation threshold, health factor —
    /// per `user_account_data_full`.
    pub fn calculate_user_account_data(
        &self,
        caller: AccountId,
        _account: AccountId,
        pool_attributes: PoolAttributesForWithdrawValidation,
        snapshots: &Vec<PoolSnapshot>,
        prices: &PriceOracle,
    ) -> (r: Result<AccountData, Error>)
        ensures
            r == user_account_data_full(
                *self,
                caller,
                pool_attributes,
                snapshots@,
                prices.fixed_prices@,
            ),
    {
        if self.oracle.is_none() {
            return Err(Error::OracleIsNotSet);
        }
        let p0 = match pool_attributes.pool {
            None => {
                return Err(Error::PoolIsNotSet);
            },
            Some(p) => p,
        };
        let cf = match self.collateral_factor_mantissa(p0) {
            Some(cf) => cf,
            None => {
                return Err(Error::MarketNotListed);
            },
        };
        let u0 = match pool_attributes.underlying {
            Some(u) => u,
            None => {
                return Err(Error::UnderlyingIsNotSet);
            },
        };
        let pr0 = match prices.get_price(u0) {
            Some(p) => p,
            None => {
                return Err(Error::PriceError);
            },
        };
        let head_param = UserAccountParam {
            price: pr0,
            ltv: cf,
            liquidation_threshold: pool_attributes.liquidation_threshold,
            balance: pool_attributes.account_balance,
            borrow: pool_attributes.account_borrow_balance,
        };
        let mut params: Vec<UserAccountParam> = Vec::new();
        params.push(head_param);
        let ghost head = params@;
        let assets = self.account_assets_with(caller, None, snapshots);
        let ghost av = assets@;
        let n = assets.len();
        let mut i: usize = 0;
        proof {
            assert(av.take(0) =~= Seq::<AccountId>::empty());
            assert(params@.skip(1) =~= Seq::<UserAccountParam>::empty());
        }
        while i < n
            invariant
                0 <= i <= n,
                n == av.len(),
                assets@ == av,
                self.oracle is Some,
                av == account_assets_spec(self.markets@, caller, None, snapshots@),
                user_head_param(*self, prices.fixed_prices@, pool_attributes) == Ok::<
                    UserAccountParam,
                    Error,
                >(head[0]),
                head.len() == 1,
                1 <= params@.len(),
                params@.take(1) == head,
                user_walk_params(*self, snapshots@, prices.fixed_prices@, av.take(i as int))
                    == Ok::<Seq<UserAccountParam>, Error>(params@.skip(1)),
            decreases n - i,
        {
            proof {
                assert(av.take(i as int + 1).drop_last() =~= av.take(i as int));
                assert(av.take(i as int + 1).last() == av[i as int]);
            }
            match self.user_walk_param_exec(snapshots, prices, assets[i]) {
                Err(e) => {
                    proof {
                        lemma_user_walk_params_prefix_err(
                            *self,
                            snapshots@,
                            prices.fixed_prices@,
                            av,
                            i as int + 1,
                        );
                    }
                    return Err(e);
                },
                Ok(p) => {
                    let ghost before = params@;
                    params.push(p);
                    proof {
                        assert(params@.take(1) =~= before.take(1));
                        assert(params@.skip(1) =~= before.skip(1).push(p));
                    }
                },
            }
            i = i + 1;
        }
        proof {
            assert(av.take(n as int) =~= av);
            assert(seq![head[0]] + params@.skip(1) =~= params@);
        }
        crate::math::calculate_user_account_data_from_params(&params)
    }

    /// Whether withdrawing `amount` of the calling pool's underlying keeps
    /// the account solvent. A business rejection returns `Ok(false)`; a
    /// misconfigured system returns an error — the two are never conflated.
    pub fn balance_decrease_allowed(
        &self,
        caller: AccountId,
        pool_attributes: PoolAttributesForWithdrawValidation,
        _account: AccountId,
        amount: Balance,
        snapshots: &Vec<PoolSnapshot>,
        prices: &PriceOracle,
    ) -> (r: Result<bool, Error>)
        ensures
            r == balance_decrease_allowed_outcome(
                *self,
                caller,
                pool_attributes,
                amount,
                snapshots@,
                prices.fixed_prices@,
            ),
    {
        if self.oracle.is_none() {
            return Err(Error::OracleIsNotSet);
        }
        let ad = match self.calculate_user_account_data(
            caller,
            _account,
            pool_attributes,
            snapshots,
            prices,
        ) {
            Err(e) => {
                return Err(e);
            },
            Ok(ad) => ad,
        };
        if ad.total_debt_in_base_currency == 0 {
            return Ok(true);
        }
        let u = match pool_attributes.underlying {
            Some(u) => u,
            None => {
                return Err(Error::UnderlyingIsNotSet);
            },
        };
        let pr = match prices.get_price(u) {
            Some(p) => p,
            None => {
                return Ok(false);
            },
        };
        if pr == 0 {
            return Ok(false);
        }
        crate::math::balance_decrease_allowed(
            &BalanceDecreaseAllowedParam {
                total_collateral_in_base_currency: ad.total_collateral_in_base_currency,
                total_debt_in_base_currency: ad.total_debt_in_base_currency,
                avg_liquidation_threshold: ad.avg_liquidation_threshold,
                amount_in_base_currency_unit: amount,
                asset_price: pr,
                liquidation_threshold: pool_attributes.liquidation_threshold,
            },
        )
    }

    /// Rejects callers other than the configured manager.
    fn assert_manager(&self, caller: AccountId) -> (r: Result<(), Error>)
        ensures
            r == manager_gate(*self, caller),
    {
        match self.manager {
            None => Err(Error::ManagerIsNotSet),
            Some(m) => {
                if caller != m {
                    Err(Error::CallerIsNotManager)
                } else {
                    Ok(())
                }
            },
        }
    }
}

} // verus!
