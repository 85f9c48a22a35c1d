//! Pure fixed-point mathematics of the risk engine: hypothetical account
//! liquidity, liquidation seize amounts, health factors and the withdrawal
//! safety check. Every operation is checked: a value that leaves the
//! 128-bit range is reported as `Error::Overflow` instead of wrapping.

use vstd::prelude::*;
use vstd::arithmetic::div_mod::lemma_div_is_ordered;
use vstd::arithmetic::div_mod::lemma_div_is_ordered_by_denominator;
use vstd::arithmetic::div_mod::lemma_fundamental_div_mod;
use crate::types::AccountId;
use crate::types::Balance;
use crate::types::Error;
use crate::types::Mantissa;
use crate::types::AccountData;
use crate::types::HEALTH_FACTOR_THRESHOLD;
use crate::types::MANTISSA_ONE;
use crate::types::PRICE_PRECISION;
use crate::wide::pow10;
use crate::wide::pow10_checked;
use crate::wide::lemma_pow10_positive;
use crate::wide::wide_mul_div;

verus! {

/// The largest permitted collateral factor: 90% in mantissa form.
pub const COLLATERAL_FACTOR_MAX_MANTISSA: u128 = 900_000_000_000_000_000;

/// Everything needed to value one market's contribution to an account's
/// position: balances, exchange rate, collateral factor and oracle price.
#[derive(Clone, Copy, Debug, PartialEq, Eq)]
pub struct HypotheticalAccountLiquidityCalculationParam {
    pub asset: AccountId,
    pub decimals: u8,
    pub token_balance: Balance,
    pub borrow_balance: Balance,
    pub exchange_rate_mantissa: Mantissa,
    pub collateral_factor_mantissa: Mantissa,
    pub oracle_price_mantissa: Mantissa,
}

/// Input of the hypothetical liquidity calculation: per-market parameters
/// plus the hypothetical redeem and borrow applied to `token_modify`.
#[derive(Clone, Debug)]
pub struct GetHypotheticalAccountLiquidityInput {
    pub asset_params: Vec<HypotheticalAccountLiquidityCalculationParam>,
    pub token_modify: Option<AccountId>,
    pub redeem_tokens: Balance,
    pub borrow_amount: Balance,
}

/// Input of the liquidation seize computation.
#[derive(Clone, Copy, Debug, PartialEq, Eq)]
pub struct LiquidateCalculateSeizeTokensInput {
    pub price_borrowed_mantissa: Mantissa,
    pub decimals_borrowed: u8,
    pub price_collateral_mantissa: Mantissa,
    pub decimals_collateral: u8,
    pub exchange_rate_mantissa: Mantissa,
    pub liquidation_incentive_mantissa: Mantissa,
    pub actual_repay_amount: Balance,
}

/// Input of the withdrawal safety check.
#[derive(Clone, Copy, Debug, PartialEq, Eq)]
pub struct BalanceDecreaseAllowedParam {
    pub total_collateral_in_base_currency: u128,
    pub total_debt_in_base_currency: u128,
    pub avg_liquidation_threshold: Mantissa,
    pub amount_in_base_currency_unit: u128,
    pub asset_price: u128,
    pub liquidation_threshold: Mantissa,
}

/// Risk-weighted value of the market's collateral shares in base-currency
/// units: balance x exchange rate x collateral factor x price, with one
/// mantissa scale removed per fixed-point factor and the token's decimal
/// scale divided out.
pub open spec fn asset_collateral_value(p: HypotheticalAccountLiquidityCalculationParam) -> int {
    (p.token_balance * p.exchange_rate_mantissa * p.collateral_factor_mantissa
        * p.oracle_price_mantissa) / (
    MANTISSA_ONE * MANTISSA_ONE * MANTISSA_ONE * pow10(p.decimals as nat))
}

/// Value of the market's borrow balance in base-currency units.
pub open spec fn asset_debt_value(p: HypotheticalAccountLiquidityCalculationParam) -> int {
    (p.borrow_balance * p.oracle_price_mantissa) / (MANTISSA_ONE * pow10(p.decimals as nat))
}

/// Collateral value that a hypothetical redemption of `redeem_tokens`
/// shares would remove, counted on the debt side of the comparison.
pub open spec fn redeem_effect_value(
    p: HypotheticalAccountLiquidityCalculationParam,
    redeem_tokens: Balance,
) -> int {
    (redeem_tokens * p.exchange_rate_mantissa * p.collateral_factor_mantissa
        * p.oracle_price_mantissa) / (
    MANTISSA_ONE * MANTISSA_ONE * MANTISSA_ONE * pow10(p.decimals as nat))
}

/// Debt value that a hypothetical borrow of `borrow_amount` would add.
pub open spec fn borrow_effect_value(
    p: HypotheticalAccountLiquidityCalculationParam,
    borrow_amount: Balance,
) -> int {
    (borrow_amount * p.oracle_price_mantissa) / (MANTISSA_ONE * pow10(p.decimals as nat))
}

/// Hypothetical deltas applied only to the target market.
pub open spec fn hypothetical_effect_value(
    p: HypotheticalAccountLiquidityCalculationParam,
    token_modify: Option<AccountId>,
    redeem_tokens: Balance,
    borrow_amount: Balance,
) -> int {
    if token_modify == Some(p.asset) {
        redeem_effect_value(p, redeem_tokens) + borrow_effect_value(p, borrow_amount)
    } else {
        0
    }
}

/// Sum of all markets' collateral values.
pub open spec fn sum_collateral(ps: Seq<HypotheticalAccountLiquidityCalculationParam>) -> int
    decreases ps.len(),
{
    if ps.len() == 0 {
        0
    } else {
        sum_collateral(ps.drop_last()) + asset_collateral_value(ps.last())
    }
}

/// Sum of all markets' debt values, including the hypothetical effects on
/// the target market.
pub open spec fn sum_debt_with_effects(
    ps: Seq<HypotheticalAccountLiquidityCalculationParam>,
    token_modify: Option<AccountId>,
    redeem_tokens: Balance,
    borrow_amount: Balance,
) -> int
    decreases ps.len(),
{
    if ps.len() == 0 {
        0
    } else {
        sum_debt_with_effects(ps.drop_last(), token_modify, redeem_tokens, borrow_amount)
            + asset_debt_value(ps.last()) + hypothetical_effect_value(
            ps.last(),
            token_modify,
            redeem_tokens,
            borrow_amount,
        )
    }
}

/// Some market's decimal scale is too large to represent in 128 bits.
pub open spec fn has_decimal_overflow(
    ps: Seq<HypotheticalAccountLiquidityCalculationParam>,
) -> bool {
    exists|j: int| 0 <= j < ps.len() && pow10(ps[j].decimals as nat) > u128::MAX
}

/// The (collateral surplus, borrow shortfall) pair of the hypothetical
/// position, of which at most one side is non-zero; `Overflow` when any
/// total leaves the 128-bit range.
pub open spec fn hypothetical_liquidity(
    ps: Seq<HypotheticalAccountLiquidityCalculationParam>,
    token_modify: Option<AccountId>,
    redeem_tokens: Balance,
    borrow_amount: Balance,
) -> Result<(u128, u128), Error> {
    let c = sum_collateral(ps);
    let d = sum_debt_with_effects(ps, token_modify, redeem_tokens, borrow_amount);
    if has_decimal_overflow(ps) || c > u128::MAX || d > u128::MAX {
        Err(Error::Overflow)
    } else if c > d {
        Ok((((c - d) as u128), 0u128))
    } else {
        Ok((0u128, ((d - c) as u128)))
    }
}

proof fn lemma_asset_values_nonneg(
    p: HypotheticalAccountLiquidityCalculationParam,
    token_modify: Option<AccountId>,
    redeem_tokens: Balance,
    borrow_amount: Balance,
)
    ensures
        asset_collateral_value(p) >= 0,
        asset_debt_value(p) >= 0,
        redeem_effect_value(p, redeem_tokens) >= 0,
        borrow_effect_value(p, borrow_amount) >= 0,
        hypothetical_effect_value(p, token_modify, redeem_tokens, borrow_amount) >= 0,
{
    lemma_pow10_positive(p.decimals as nat);
    let pw = pow10(p.decimals as nat);
    assert(p.token_balance * p.exchange_rate_mantissa * p.collateral_factor_mantissa
        * p.oracle_price_mantissa >= 0) by (nonlinear_arith);
    assert(redeem_tokens * p.exchange_rate_mantissa * p.collateral_factor_mantissa
        * p.oracle_price_mantissa >= 0) by (nonlinear_arith);
    assert(p.borrow_balance * p.oracle_price_mantissa >= 0) by (nonlinear_arith);
    assert(borrow_amount * p.oracle_price_mantissa >= 0) by (nonlinear_arith);
    assert(MANTISSA_ONE * MANTISSA_ONE * MANTISSA_ONE * pw > 0) by (nonlinear_arith)
        requires
            pw >= 1,
    ;
    assert(MANTISSA_ONE * pw > 0) by (nonlinear_arith)
        requires
            pw >= 1,
    ;
    crate::wide::lemma_quotient_nonneg(
        p.token_balance * p.exchange_rate_mantissa * p.collateral_factor_mantissa
            * p.oracle_price_mantissa,
        MANTISSA_ONE * MANTISSA_ONE * MANTISSA_ONE * pw,
    );
    crate::wide::lemma_quotient_nonneg(
        redeem_tokens * p.exchange_rate_mantissa * p.collateral_factor_mantissa
            * p.oracle_price_mantissa,
        MANTISSA_ONE * MANTISSA_ONE * MANTISSA_ONE * pw,
    );
    crate::wide::lemma_quotient_nonneg(
        p.borrow_balance * p.oracle_price_mantissa,
        MANTISSA_ONE * pw,
    );
    crate::wide::lemma_quotient_nonneg(
        borrow_amount * p.oracle_price_mantissa,
        MANTISSA_ONE * pw,
    );
}

proof fn lemma_sum_take_succ(
    ps: Seq<HypotheticalAccountLiquidityCalculationParam>,
    i: int,
    token_modify: Option<AccountId>,
    redeem_tokens: Balance,
    borrow_amount: Balance,
)
    requires
        0 <= i < ps.len(),
    ensures
        sum_collateral(ps.take(i + 1)) == sum_collateral(ps.take(i)) + asset_collateral_value(
            ps[i],
        ),
        sum_debt_with_effects(ps.take(i + 1), token_modify, redeem_tokens, borrow_amount)
            == sum_debt_with_effects(ps.take(i), token_modify, redeem_tokens, borrow_amount)
            + asset_debt_value(ps[i]) + hypothetical_effect_value(
            ps[i],
            token_modify,
            redeem_tokens,
            borrow_amount,
        ),
{
    assert(ps.take(i + 1).drop_last() =~= ps.take(i));
    assert(ps.take(i + 1).last() == ps[i]);
}

proof fn lemma_sum_prefix_le(
    ps: Seq<HypotheticalAccountLiquidityCalculationParam>,
    i: int,
    token_modify: Option<AccountId>,
    redeem_tokens: Balance,
    borrow_amount: Balance,
)
    requires
        0 <= i <= ps.len(),
    ensures
        sum_collateral(ps.take(i)) <= sum_collateral(ps),
        sum_debt_with_effects(ps.take(i), token_modify, redeem_tokens, borrow_amount)
            <= sum_debt_with_effects(ps, token_modify, redeem_tokens, borrow_amount),
    decreases ps.len() - i,
{
    if i == ps.len() {
        assert(ps.take(i) =~= ps);
    } else {
        lemma_sum_take_succ(ps, i, token_modify, redeem_tokens, borrow_amount);
        lemma_asset_values_nonneg(ps[i], token_modify, redeem_tokens, borrow_amount);
        lemma_sum_prefix_le(ps, i + 1, token_modify, redeem_tokens, borrow_amount);
    }
}

/// Law: the liquidity pair never reports a surplus and a shortfall at the
/// same time — at least one side of a successful result is zero.
pub proof fn lemma_liquidity_pair_one_sided(
    ps: Seq<HypotheticalAccountLiquidityCalculationParam>,
    token_modify: Option<AccountId>,
    redeem_tokens: Balance,
    borrow_amount: Balance,
)
    ensures
        match hypothetical_liquidity(ps, token_modify, redeem_tokens, borrow_amount) {
            Ok(pair) => pair.0 == 0 || pair.1 == 0,
            Err(e) => e == Error::Overflow,
        },
{
}

/// Law: raising the hypothetical borrow amount never lowers the debt side
/// of the comparison.
pub proof fn lemma_sum_debt_monotone_in_borrow(
    ps: Seq<HypotheticalAccountLiquidityCalculationParam>,
    token_modify: Option<AccountId>,
    redeem_tokens: Balance,
    amount1: Balance,
    amount2: Balance,
)
    requires
        amount1 <= amount2,
    ensures
        sum_debt_with_effects(ps, token_modify, redeem_tokens, amount1) <= sum_debt_with_effects(
            ps,
            token_modify,
            redeem_tokens,
            amount2,
        ),
    decreases ps.len(),
{
    if ps.len() > 0 {
        lemma_sum_debt_monotone_in_borrow(
            ps.drop_last(),
            token_modify,
            redeem_tokens,
            amount1,
            amount2,
        );
        let p = ps.last();
        lemma_pow10_positive(p.decimals as nat);
        let pw = pow10(p.decimals as nat);
        assert(amount1 * p.oracle_price_mantissa <= amount2 * p.oracle_price_mantissa)
            by (nonlinear_arith)
            requires
                amount1 <= amount2,
        ;
        assert(MANTISSA_ONE * pw > 0) by (nonlinear_arith)
            requires
                pw >= 1,
        ;
        lemma_div_is_ordered(
            amount1 * p.oracle_price_mantissa,
            amount2 * p.oracle_price_mantissa,
            MANTISSA_ONE * pw,
        );
    }
}


/// Both liquidity sums are nonnegative.
pub proof fn lemma_liquidity_sums_nonneg(
    ps: Seq<HypotheticalAccountLiquidityCalculationParam>,
    token_modify: Option<AccountId>,
    redeem_tokens: Balance,
    borrow_amount: Balance,
)
    ensures
        sum_collateral(ps) >= 0,
        sum_debt_with_effects(ps, token_modify, redeem_tokens, borrow_amount) >= 0,
    decreases ps.len(),
{
    if ps.len() > 0 {
        lemma_liquidity_sums_nonneg(ps.drop_last(), token_modify, redeem_tokens, borrow_amount);
        lemma_asset_values_nonneg(ps.last(), token_modify, redeem_tokens, borrow_amount);
    }
}

/// Collateral and debt value of one market, or `Overflow` when either
/// leaves the 128-bit range.
fn asset_values(p: &HypotheticalAccountLiquidityCalculationParam) -> (r: Result<
    (u128, u128),
    Error,
>)
    ensures
        match r {
            Ok(v) => pow10(p.decimals as nat) <= u128::MAX && v.0 == asset_collateral_value(*p)
                && v.1 == asset_debt_value(*p),
            Err(e) => e == Error::Overflow && (pow10(p.decimals as nat) > u128::MAX
                || asset_collateral_value(*p) > u128::MAX || asset_debt_value(*p) > u128::MAX),
        },
{
    let pw = match pow10_checked(p.decimals) {
        Some(v) => v,
        None => {
            return Err(Error::Overflow);
        },
    };
    proof {
        lemma_pow10_positive(p.decimals as nat);
        lemma_asset_values_nonneg(*p, None, 0, 0);
    }
    let collateral = match wide_mul_div(
        p.token_balance,
        p.exchange_rate_mantissa,
        p.collateral_factor_mantissa,
        p.oracle_price_mantissa,
        MANTISSA_ONE,
        MANTISSA_ONE,
        MANTISSA_ONE,
        pw,
    ) {
        Some(v) => v,
        None => {
            return Err(Error::Overflow);
        },
    };
    let debt = match wide_mul_div(
        p.borrow_balance,
        p.oracle_price_mantissa,
        1,
        1,
        MANTISSA_ONE,
        pw,
        1,
        1,
    ) {
        Some(v) => v,
        None => {
            return Err(Error::Overflow);
        },
    };
    Ok((collateral, debt))
}

/// Debt-side effect of the hypothetical redeem and borrow on the target
/// market, or `Overflow`.
fn effect_values(
    p: &HypotheticalAccountLiquidityCalculationParam,
    redeem_tokens: Balance,
    borrow_amount: Balance,
) -> (r: Result<u128, Error>)
    requires
        pow10(p.decimals as nat) <= u128::MAX,
    ensures
        match r {
            Ok(v) => v == redeem_effect_value(*p, redeem_tokens) + borrow_effect_value(
                *p,
                borrow_amount,
            ),
            Err(e) => e == Error::Overflow && redeem_effect_value(*p, redeem_tokens)
                + borrow_effect_value(*p, borrow_amount) > u128::MAX,
        },
{
    let pw = match pow10_checked(p.decimals) {
        Some(v) => v,
        None => {
            proof {
                assert(false);
            }
            return Err(Error::Overflow);
        },
    };
    proof {
        lemma_pow10_positive(p.decimals as nat);
        lemma_asset_values_nonneg(*p, Some(p.asset), redeem_tokens, borrow_amount);
    }
    let redeem_effect = match wide_mul_div(
        redeem_tokens,
        p.exchange_rate_mantissa,
        p.collateral_factor_mantissa,
        p.oracle_price_mantissa,
        MANTISSA_ONE,
        MANTISSA_ONE,
        MANTISSA_ONE,
        pw,
    ) {
        Some(v) => v,
        None => {
            proof {
                lemma_asset_values_nonneg(*p, Some(p.asset), redeem_tokens, borrow_amount);
            }
            return Err(Error::Overflow);
        },
    };
    let borrow_effect = match wide_mul_div(
        borrow_amount,
        p.oracle_price_mantissa,
        1,
        1,
        MANTISSA_ONE,
        pw,
        1,
        1,
    ) {
        Some(v) => v,
        None => {
            proof {
                lemma_asset_values_nonneg(*p, Some(p.asset), redeem_tokens, borrow_amount);
            }
            return Err(Error::Overflow);
        },
    };
    match redeem_effect.checked_add(borrow_effect) {
        Some(v) => Ok(v),
        None => Err(Error::Overflow),
    }
}

/// Hypothetical account liquidity over prepared per-market parameters:
/// the surplus of risk-weighted collateral value over debt value, and the
/// shortfall of the converse, after applying the hypothetical redeem and
/// borrow to the target market. Exactly one side of the pair is non-zero
/// unless the two values are equal.
pub fn get_hypothetical_account_liquidity(
    input: &GetHypotheticalAccountLiquidityInput,
) -> (r: Result<(u128, u128), Error>)
    ensures
        r == hypothetical_liquidity(
            input.asset_params@,
            input.token_modify,
            input.redeem_tokens,
            input.borrow_amount,
        ),
{
    let ghost ps = input.asset_params@;
    let ghost tm = input.token_modify;
    let ghost rt = input.redeem_tokens;
    let ghost ba = input.borrow_amount;
    let n = input.asset_params.len();
    let mut sum_c: u128 = 0;
    let mut sum_d: u128 = 0;
    let mut i: usize = 0;
    proof {
        assert(ps.take(0) =~= Seq::<HypotheticalAccountLiquidityCalculationParam>::empty());
    }
    while i < n
        invariant
            0 <= i <= n,
            n == ps.len(),
            input.asset_params@ == ps,
            input.token_modify == tm,
            input.redeem_tokens == rt,
            input.borrow_amount == ba,
            sum_c == sum_collateral(ps.take(i as int)),
            sum_d == sum_debt_with_effects(ps.take(i as int), tm, rt, ba),
            forall|j: int| 0 <= j < i ==> pow10(ps[j].decimals as nat) <= u128::MAX,
        decreases n - i,
    {
        let p = &input.asset_params[i];
        proof {
            lemma_sum_take_succ(ps, i as int, tm, rt, ba);
            lemma_sum_prefix_le(ps, i as int + 1, tm, rt, ba);
            lemma_asset_values_nonneg(ps[i as int], tm, rt, ba);
        }
        let (c, d) = match asset_values(p) {
            Ok(v) => v,
            Err(e) => {
                return Err(e);
            },
        };
        let sum_c_next = match sum_c.checked_add(c) {
            Some(v) => v,
            None => {
                return Err(Error::Overflow);
            },
        };
        let matches_target = match input.token_modify {
            Some(t) => t == p.asset,
            None => false,
        };
        let effect = if matches_target {
            match effect_values(p, input.redeem_tokens, input.borrow_amount) {
                Ok(v) => v,
                Err(e) => {
                    return Err(e);
                },
            }
        } else {
            0
        };
        let sum_d_next = match sum_d.checked_add(d) {
            Some(v) => match v.checked_add(effect) {
                Some(w) => w,
                None => {
                    return Err(Error::Overflow);
                },
            },
            None => {
                return Err(Error::Overflow);
            },
        };
        sum_c = sum_c_next;
        sum_d = sum_d_next;
        i = i + 1;
    }
    proof {
        assert(ps.take(n as int) =~= ps);
    }
    if sum_c > sum_d {
        Ok((sum_c - sum_d, 0))
    } else {
        Ok((0, sum_d - sum_c))
    }
}


/// One market's inputs to the aggregate account-data computation: oracle
/// price, loan-to-value (the collateral factor), liquidation threshold and
/// the account's balances there.
#[derive(Clone, Copy, Debug, PartialEq, Eq)]
pub struct UserAccountParam {
    pub price: u128,
    pub ltv: Mantissa,
    pub liquidation_threshold: Mantissa,
    pub balance: Balance,
    pub borrow: Balance,
}

/// Base-currency value of the account's balance in one market.
pub open spec fn user_collateral_value(p: UserAccountParam) -> int {
    (p.price * p.balance) / (PRICE_PRECISION as int)
}

/// Base-currency value of the account's borrow in one market.
pub open spec fn user_debt_value(p: UserAccountParam) -> int {
    (p.price * p.borrow) / (PRICE_PRECISION as int)
}

/// One market's contribution to the collateral-weighted LTV numerator.
pub open spec fn weighted_ltv_value(p: UserAccountParam) -> int {
    user_collateral_value(p) * p.ltv
}

/// One market's contribution to the collateral-weighted liquidation
/// threshold numerator.
pub open spec fn weighted_threshold_value(p: UserAccountParam) -> int {
    user_collateral_value(p) * p.liquidation_threshold
}

/// Total collateral value across the markets.
pub open spec fn sum_user_collateral(ps: Seq<UserAccountParam>) -> int
    decreases ps.len(),
{
    if ps.len() == 0 {
        0
    } else {
        sum_user_collateral(ps.drop_last()) + user_collateral_value(ps.last())
    }
}

/// Total debt value across the markets.
pub open spec fn sum_user_debt(ps: Seq<UserAccountParam>) -> int
    decreases ps.len(),
{
    if ps.len() == 0 {
        0
    } else {
        sum_user_debt(ps.drop_last()) + user_debt_value(ps.last())
    }
}

/// Collateral-weighted LTV numerator across the markets.
pub open spec fn sum_weighted_ltv(ps: Seq<UserAccountParam>) -> int
    decreases ps.len(),
{
    if ps.len() == 0 {
        0
    } else {
        sum_weighted_ltv(ps.drop_last()) + weighted_ltv_value(ps.last())
    }
}

/// Collateral-weighted liquidation-threshold numerator across the markets.
pub open spec fn sum_weighted_threshold(ps: Seq<UserAccountParam>) -> int
    decreases ps.len(),
{
    if ps.len() == 0 {
        0
    } else {
        sum_weighted_threshold(ps.drop_last()) + weighted_threshold_value(ps.last())
    }
}

proof fn lemma_user_values_nonneg(p: UserAccountParam)
    ensures
        user_collateral_value(p) >= 0,
        user_debt_value(p) >= 0,
        weighted_ltv_value(p) >= 0,
        weighted_threshold_value(p) >= 0,
{
    assert(p.price * p.balance >= 0) by (nonlinear_arith);
    assert(p.price * p.borrow >= 0) by (nonlinear_arith);
    crate::wide::lemma_quotient_nonneg(p.price * p.balance, PRICE_PRECISION as int);
    crate::wide::lemma_quotient_nonneg(p.price * p.borrow, PRICE_PRECISION as int);
    let v = user_collateral_value(p);
    assert(v * p.ltv >= 0) by (nonlinear_arith)
        requires
            v >= 0,
    ;
    assert(v * p.liquidation_threshold >= 0) by (nonlinear_arith)
        requires
            v >= 0,
    ;
}

proof fn lemma_user_sum_take_succ(ps: Seq<UserAccountParam>, i: int)
    requires
        0 <= i < ps.len(),
    ensures
        sum_user_collateral(ps.take(i + 1)) == sum_user_collateral(ps.take(i))
            + user_collateral_value(ps[i]),
        sum_user_debt(ps.take(i + 1)) == sum_user_debt(ps.take(i)) + user_debt_value(ps[i]),
        sum_weighted_ltv(ps.take(i + 1)) == sum_weighted_ltv(ps.take(i)) + weighted_ltv_value(
            ps[i],
        ),
        sum_weighted_threshold(ps.take(i + 1)) == sum_weighted_threshold(ps.take(i))
            + weighted_threshold_value(ps[i]),
{
    assert(ps.take(i + 1).drop_last() =~= ps.take(i));
    assert(ps.take(i + 1).last() == ps[i]);
}

proof fn lemma_user_sum_prefix_le(ps: Seq<UserAccountParam>, i: int)
    requires
        0 <= i <= ps.len(),
    ensures
        sum_user_collateral(ps.take(i)) <= sum_user_collateral(ps),
        sum_user_debt(ps.take(i)) <= sum_user_debt(ps),
        sum_weighted_ltv(ps.take(i)) <= sum_weighted_ltv(ps),
        sum_weighted_threshold(ps.take(i)) <= sum_weighted_threshold(ps),
    decreases ps.len() - i,
{
    if i == ps.len() {
        assert(ps.take(i) =~= ps);
    } else {
        lemma_user_sum_take_succ(ps, i);
        lemma_user_values_nonneg(ps[i]);
        lemma_user_sum_prefix_le(ps, i + 1);
    }
}

/// Aggregate position of an account: total collateral and debt value,
/// collateral-weighted average LTV and liquidation threshold, and the
/// resulting health factor; `Overflow` when any total leaves 128 bits.
pub open spec fn user_account_data_outcome(ps: Seq<UserAccountParam>) -> Result<
    AccountData,
    Error,
> {
    let c = sum_user_collateral(ps);
    let d = sum_user_debt(ps);
    let wl = sum_weighted_ltv(ps);
    let wt = sum_weighted_threshold(ps);
    if c > u128::MAX || d > u128::MAX || wl > u128::MAX || wt > u128::MAX {
        Err(Error::Overflow)
    } else {
        let avg_ltv = if c == 0 {
            0
        } else {
            wl / c
        };
        let avg_lt = if c == 0 {
            0
        } else {
            wt / c
        };
        match health_factor_outcome(c as u128, d as u128, avg_lt as u128) {
            Err(e) => Err(e),
            Ok(hf) => Ok(
                AccountData {
                    total_collateral_in_base_currency: c as u128,
                    total_debt_in_base_currency: d as u128,
                    avg_ltv: avg_ltv as u128,
                    avg_liquidation_threshold: avg_lt as u128,
                    health_factor: hf,
                },
            ),
        }
    }
}

/// Aggregates prepared per-market data into an `AccountData`, per
/// `user_account_data_outcome`.
pub fn calculate_user_account_data_from_params(params: &Vec<UserAccountParam>) -> (r: Result<
    AccountData,
    Error,
>)
    ensures
        r == user_account_data_outcome(params@),
{
    let ghost ps = params@;
    let n = params.len();
    let mut c: u128 = 0;
    let mut d: u128 = 0;
    let mut wl: u128 = 0;
    let mut wt: u128 = 0;
    let mut i: usize = 0;
    proof {
        assert(ps.take(0) =~= Seq::<UserAccountParam>::empty());
    }
    while i < n
        invariant
            0 <= i <= n,
            n == ps.len(),
            params@ == ps,
            c == sum_user_collateral(ps.take(i as int)),
            d == sum_user_debt(ps.take(i as int)),
            wl == sum_weighted_ltv(ps.take(i as int)),
            wt == sum_weighted_threshold(ps.take(i as int)),
        decreases n - i,
    {
        let p = &params[i];
        proof {
            lemma_user_sum_take_succ(ps, i as int);
            lemma_user_sum_prefix_le(ps, i as int + 1);
            lemma_user_values_nonneg(ps[i as int]);
        }
        let v = match wide_mul_div(p.price, p.balance, 1, 1, PRICE_PRECISION, 1, 1, 1) {
            Some(v) => v,
            None => {
                return Err(Error::Overflow);
            },
        };
        let dv = match wide_mul_div(p.price, p.borrow, 1, 1, PRICE_PRECISION, 1, 1, 1) {
            Some(v) => v,
            None => {
                return Err(Error::Overflow);
            },
        };
        let wlv = match v.checked_mul(p.ltv) {
            Some(v) => v,
            None => {
                return Err(Error::Overflow);
            },
        };
        let wtv = match v.checked_mul(p.liquidation_threshold) {
            Some(v) => v,
            None => {
                return Err(Error::Overflow);
            },
        };
        c = match c.checked_add(v) {
            Some(v) => v,
            None => {
                return Err(Error::Overflow);
            },
        };
        d = match d.checked_add(dv) {
            Some(v) => v,
            None => {
                return Err(Error::Overflow);
            },
        };
        wl = match wl.checked_add(wlv) {
            Some(v) => v,
            None => {
                return Err(Error::Overflow);
            },
        };
        wt = match wt.checked_add(wtv) {
            Some(v) => v,
            None => {
                return Err(Error::Overflow);
            },
        };
        i = i + 1;
    }
    proof {
        assert(ps.take(n as int) =~= ps);
    }
    let avg_ltv = if c == 0 {
        0
    } else {
        wl / c
    };
    let avg_lt = if c == 0 {
        0
    } else {
        wt / c
    };
    match calculate_health_factor_from_balances(c, d, avg_lt) {
        Err(e) => Err(e),
        Ok(hf) => Ok(
            AccountData {
                total_collateral_in_base_currency: c,
                total_debt_in_base_currency: d,
                avg_ltv,
                avg_liquidation_threshold: avg_lt,
                health_factor: hf,
            },
        ),
    }
}

/// Truncated number of collateral shares a liquidator seizes:
/// `repay x incentive x priceBorrowed x 10^decCollateral /
/// (priceCollateral x exchangeRate x 10^decBorrowed)`.
pub open spec fn seize_tokens_value(input: LiquidateCalculateSeizeTokensInput) -> int {
    (input.actual_repay_amount * input.liquidation_incentive_mantissa
        * input.price_borrowed_mantissa * pow10(input.decimals_collateral as nat)) / (
    input.price_collateral_mantissa * input.exchange_rate_mantissa * pow10(
        input.decimals_borrowed as nat,
    ))
}

/// The seize computation's full outcome, `Overflow` when a decimal scale or
/// the result leaves the 128-bit range.
pub open spec fn seize_tokens_outcome(input: LiquidateCalculateSeizeTokensInput) -> Result<
    Balance,
    Error,
> {
    if pow10(input.decimals_collateral as nat) > u128::MAX || pow10(
        input.decimals_borrowed as nat,
    ) > u128::MAX {
        Err(Error::Overflow)
    } else if seize_tokens_value(input) > u128::MAX {
        Err(Error::Overflow)
    } else {
        Ok(seize_tokens_value(input) as u128)
    }
}

/// Number of collateral shares seized for a repayment, per
/// `seize_tokens_value`. Prices and the exchange rate must be usable
/// (non-zero); the caller establishes this before pricing the seize.
pub fn liquidate_calculate_seize_tokens(input: &LiquidateCalculateSeizeTokensInput) -> (r: Result<
    Balance,
    Error,
>)
    requires
        input.price_collateral_mantissa > 0,
        input.exchange_rate_mantissa > 0,
    ensures
        r == seize_tokens_outcome(*input),
{
    let pw_c = match pow10_checked(input.decimals_collateral) {
        Some(v) => v,
        None => {
            return Err(Error::Overflow);
        },
    };
    let pw_b = match pow10_checked(input.decimals_borrowed) {
        Some(v) => v,
        None => {
            return Err(Error::Overflow);
        },
    };
    proof {
        lemma_pow10_positive(input.decimals_borrowed as nat);
    }
    match wide_mul_div(
        input.actual_repay_amount,
        input.liquidation_incentive_mantissa,
        input.price_borrowed_mantissa,
        pw_c,
        input.price_collateral_mantissa,
        input.exchange_rate_mantissa,
        pw_b,
        1,
    ) {
        Some(v) => Ok(v),
        None => Err(Error::Overflow),
    }
}

/// Law: the seize amount never shrinks when the repayment grows, all other
/// inputs fixed.
pub proof fn lemma_seize_tokens_monotone_in_repay(
    i1: LiquidateCalculateSeizeTokensInput,
    i2: LiquidateCalculateSeizeTokensInput,
)
    requires
        i1.actual_repay_amount <= i2.actual_repay_amount,
        i1.liquidation_incentive_mantissa == i2.liquidation_incentive_mantissa,
        i1.price_borrowed_mantissa == i2.price_borrowed_mantissa,
        i1.decimals_borrowed == i2.decimals_borrowed,
        i1.price_collateral_mantissa == i2.price_collateral_mantissa,
        i1.decimals_collateral == i2.decimals_collateral,
        i1.exchange_rate_mantissa == i2.exchange_rate_mantissa,
        i1.price_collateral_mantissa > 0,
        i1.exchange_rate_mantissa > 0,
    ensures
        seize_tokens_value(i1) <= seize_tokens_value(i2),
{
    lemma_pow10_positive(i1.decimals_collateral as nat);
    lemma_pow10_positive(i1.decimals_borrowed as nat);
    let pwc = pow10(i1.decimals_collateral as nat);
    let pwb = pow10(i1.decimals_borrowed as nat);
    let r1 = i1.actual_repay_amount as int;
    let r2 = i2.actual_repay_amount as int;
    let inc = i1.liquidation_incentive_mantissa as int;
    let pb = i1.price_borrowed_mantissa as int;
    let num1 = r1 * inc * pb * pwc;
    let num2 = r2 * inc * pb * pwc;
    let den = i1.price_collateral_mantissa * i1.exchange_rate_mantissa * pwb;
    assert(num1 <= num2 && num1 >= 0) by (nonlinear_arith)
        requires
            0 <= r1 <= r2,
            inc >= 0,
            pb >= 0,
            pwc >= 1,
            num1 == r1 * inc * pb * pwc,
            num2 == r2 * inc * pb * pwc,
    ;
    assert(den > 0) by (nonlinear_arith)
        requires
            i1.price_collateral_mantissa > 0,
            i1.exchange_rate_mantissa > 0,
            pwb >= 1,
            den == i1.price_collateral_mantissa * i1.exchange_rate_mantissa * pwb,
    ;
    lemma_div_is_ordered(num1, num2, den);
}

/// Law: the seize amount never grows when the collateral price grows, all
/// other inputs fixed.
pub proof fn lemma_seize_tokens_antitone_in_collateral_price(
    i1: LiquidateCalculateSeizeTokensInput,
    i2: LiquidateCalculateSeizeTokensInput,
)
    requires
        0 < i1.price_collateral_mantissa <= i2.price_collateral_mantissa,
        i1.actual_repay_amount == i2.actual_repay_amount,
        i1.liquidation_incentive_mantissa == i2.liquidation_incentive_mantissa,
        i1.price_borrowed_mantissa == i2.price_borrowed_mantissa,
        i1.decimals_borrowed == i2.decimals_borrowed,
        i1.decimals_collateral == i2.decimals_collateral,
        i1.exchange_rate_mantissa == i2.exchange_rate_mantissa,
        i1.exchange_rate_mantissa > 0,
    ensures
        seize_tokens_value(i2) <= seize_tokens_value(i1),
{
    lemma_pow10_positive(i1.decimals_collateral as nat);
    lemma_pow10_positive(i1.decimals_borrowed as nat);
    let pwc = pow10(i1.decimals_collateral as nat);
    let pwb = pow10(i1.decimals_borrowed as nat);
    let num = i1.actual_repay_amount * i1.liquidation_incentive_mantissa
        * i1.price_borrowed_mantissa * pwc;
    let den1 = i1.price_collateral_mantissa * i1.exchange_rate_mantissa * pwb;
    let den2 = i2.price_collateral_mantissa * i1.exchange_rate_mantissa * pwb;
    assert(num >= 0) by (nonlinear_arith)
        requires
            pwc >= 1,
            num == i1.actual_repay_amount * i1.liquidation_incentive_mantissa
                * i1.price_borrowed_mantissa * pwc,
    ;
    assert(1 <= den1 <= den2) by (nonlinear_arith)
        requires
            0 < i1.price_collateral_mantissa <= i2.price_collateral_mantissa,
            i1.exchange_rate_mantissa > 0,
            pwb >= 1,
            den1 == i1.price_collateral_mantissa * i1.exchange_rate_mantissa * pwb,
            den2 == i2.price_collateral_mantissa * i1.exchange_rate_mantissa * pwb,
    ;
    lemma_div_is_ordered_by_denominator(num, den1, den2);
    assert(seize_tokens_value(i2) == num / den2);
}

/// Law: when both divisions are exact and the numerator is positive, a
/// strictly higher collateral price yields strictly fewer seized shares.
/// (Truncation can otherwise map two nearby prices to the same amount.)
pub proof fn lemma_seize_tokens_strictly_antitone_when_exact(
    i1: LiquidateCalculateSeizeTokensInput,
    i2: LiquidateCalculateSeizeTokensInput,
)
    requires
        0 < i1.price_collateral_mantissa < i2.price_collateral_mantissa,
        i1.actual_repay_amount == i2.actual_repay_amount,
        i1.liquidation_incentive_mantissa == i2.liquidation_incentive_mantissa,
        i1.price_borrowed_mantissa == i2.price_borrowed_mantissa,
        i1.decimals_borrowed == i2.decimals_borrowed,
        i1.decimals_collateral == i2.decimals_collateral,
        i1.exchange_rate_mantissa == i2.exchange_rate_mantissa,
        i1.exchange_rate_mantissa > 0,
        i1.actual_repay_amount * i1.liquidation_incentive_mantissa * i1.price_borrowed_mantissa
            * pow10(i1.decimals_collateral as nat) > 0,
        (i1.actual_repay_amount * i1.liquidation_incentive_mantissa * i1.price_borrowed_mantissa
            * pow10(i1.decimals_collateral as nat)) % (i1.price_collateral_mantissa
            * i1.exchange_rate_mantissa * pow10(i1.decimals_borrowed as nat)) == 0,
        (i2.actual_repay_amount * i2.liquidation_incentive_mantissa * i2.price_borrowed_mantissa
            * pow10(i2.decimals_collateral as nat)) % (i2.price_collateral_mantissa
            * i2.exchange_rate_mantissa * pow10(i2.decimals_borrowed as nat)) == 0,
    ensures
        seize_tokens_value(i2) < seize_tokens_value(i1),
{
    lemma_pow10_positive(i1.decimals_collateral as nat);
    lemma_pow10_positive(i1.decimals_borrowed as nat);
    let pwc = pow10(i1.decimals_collateral as nat);
    let pwb = pow10(i1.decimals_borrowed as nat);
    let num = i1.actual_repay_amount * i1.liquidation_incentive_mantissa
        * i1.price_borrowed_mantissa * pwc;
    let den1 = i1.price_collateral_mantissa * i1.exchange_rate_mantissa * pwb;
    let den2 = i2.price_collateral_mantissa * i1.exchange_rate_mantissa * pwb;
    assert(1 <= den1 && den1 < den2) by (nonlinear_arith)
        requires
            0 < i1.price_collateral_mantissa < i2.price_collateral_mantissa,
            i1.exchange_rate_mantissa > 0,
            pwb >= 1,
            den1 == i1.price_collateral_mantissa * i1.exchange_rate_mantissa * pwb,
            den2 == i2.price_collateral_mantissa * i1.exchange_rate_mantissa * pwb,
    ;
    assert(seize_tokens_value(i2) == num / den2);
    let q1 = num / den1;
    let q2 = num / den2;
    lemma_fundamental_div_mod(num, den1);
    lemma_fundamental_div_mod(num, den2);
    assert(num == den1 * q1);
    assert(num == den2 * q2);
    assert(q2 < q1) by (nonlinear_arith)
        requires
            num == den1 * q1,
            num == den2 * q2,
            1 <= den1 < den2,
            num > 0,
    ;
}

/// Ratio of risk-adjusted collateral to debt, as a mantissa; infinite
/// (represented as `u128::MAX`) when there is no debt.
pub open spec fn health_factor_value(
    collateral: u128,
    debt: u128,
    liquidation_threshold: Mantissa,
) -> int {
    if debt == 0 {
        u128::MAX as int
    } else {
        (collateral * liquidation_threshold) / (debt as int)
    }
}

/// Outcome of the health factor computation, `Overflow` when the mantissa
/// leaves the 128-bit range.
pub open spec fn health_factor_outcome(
    collateral: u128,
    debt: u128,
    liquidation_threshold: Mantissa,
) -> Result<u128, Error> {
    if health_factor_value(collateral, debt, liquidation_threshold) > u128::MAX {
        Err(Error::Overflow)
    } else {
        Ok(health_factor_value(collateral, debt, liquidation_threshold) as u128)
    }
}

/// Health factor of a position: `collateral x liquidationThreshold / debt`,
/// or `u128::MAX` when the account has no debt.
pub fn calculate_health_factor_from_balances(
    collateral: u128,
    debt: u128,
    liquidation_threshold: Mantissa,
) -> (r: Result<u128, Error>)
    ensures
        r == health_factor_outcome(collateral, debt, liquidation_threshold),
{
    if debt == 0 {
        return Ok(u128::MAX);
    }
    match wide_mul_div(collateral, liquidation_threshold, 1, 1, debt, 1, 1, 1) {
        Some(v) => Ok(v),
        None => Err(Error::Overflow),
    }
}

/// Whether a withdrawal keeps the account's health factor at or above 1.0:
/// the amount's base-currency value is removed from the collateral and the
/// weighted liquidation threshold, and the resulting health factor is
/// compared against the liquidation bound. Removing all collateral, or more
/// threshold weight than the account carries, is never allowed.
pub open spec fn balance_decrease_outcome(p: BalanceDecreaseAllowedParam) -> Result<bool, Error> {
    let decrease = (p.asset_price * p.amount_in_base_currency_unit) / (PRICE_PRECISION as int);
    if decrease > u128::MAX {
        Err(Error::Overflow)
    } else if decrease >= p.total_collateral_in_base_currency {
        Ok(false)
    } else {
        let weight_all = p.total_collateral_in_base_currency * p.avg_liquidation_threshold;
        let weight_out = decrease * p.liquidation_threshold;
        if weight_all > u128::MAX || weight_out > u128::MAX {
            Err(Error::Overflow)
        } else if weight_all < weight_out {
            Ok(false)
        } else {
            let collateral_after = (p.total_collateral_in_base_currency - decrease) as u128;
            let threshold_after = ((weight_all - weight_out) / (collateral_after as int)) as u128;
            match health_factor_outcome(
                collateral_after,
                p.total_debt_in_base_currency,
                threshold_after,
            ) {
                Ok(hf) => Ok(hf >= HEALTH_FACTOR_THRESHOLD),
                Err(e) => Err(e),
            }
        }
    }
}

/// The withdrawal safety check, per `balance_decrease_outcome`.
pub fn balance_decrease_allowed(p: &BalanceDecreaseAllowedParam) -> (r: Result<bool, Error>)
    ensures
        r == balance_decrease_outcome(*p),
{
    let decrease = match wide_mul_div(
        p.asset_price,
        p.amount_in_base_currency_unit,
        1,
        1,
        PRICE_PRECISION,
        1,
        1,
        1,
    ) {
        Some(v) => v,
        None => {
            return Err(Error::Overflow);
        },
    };
    if decrease >= p.total_collateral_in_base_currency {
        return Ok(false);
    }
    let weight_all = match p.total_collateral_in_base_currency.checked_mul(
        p.avg_liquidation_threshold,
    ) {
        Some(v) => v,
        None => {
            return Err(Error::Overflow);
        },
    };
    let weight_out = match decrease.checked_mul(p.liquidation_threshold) {
        Some(v) => v,
        None => {
            return Err(Error::Overflow);
        },
    };
    if weight_all < weight_out {
        return Ok(false);
    }
    let collateral_after = p.total_collateral_in_base_currency - decrease;
    let threshold_after = (weight_all - weight_out) / collateral_after;
    match calculate_health_factor_from_balances(
        collateral_after,
        p.total_debt_in_base_currency,
        threshold_after,
    ) {
        Ok(hf) => Ok(hf >= HEALTH_FACTOR_THRESHOLD),
        Err(e) => Err(e),
    }
}

} // verus!
