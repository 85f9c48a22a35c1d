//! Common value types of the risk engine: identifiers, fixed-point scales,
//! the error taxonomy, observability events and the snapshot records that
//! callers hand to the engine in place of live cross-contract reads.

use vstd::prelude::*;

verus! {

/// Identifier of an account or contract, modelled as a 128-bit integer.
pub type AccountId = u128;

/// Token amount, in the smallest unit of a pool share or underlying asset.
pub type Balance = u128;

/// Fixed-point number scaled by `MANTISSA_ONE` (18 decimals).
pub type Mantissa = u128;

/// One in fixed-point mantissa representation: 1e18.
pub const MANTISSA_ONE: u128 = 1_000_000_000_000_000_000;

/// Scale of oracle prices: a price of 1.0 base-currency units per token
/// is reported as `PRICE_PRECISION`.
pub const PRICE_PRECISION: u128 = 1_000_000_000_000_000_000;

/// A health factor of exactly 1.0; positions below it are liquidatable.
pub const HEALTH_FACTOR_THRESHOLD: u128 = 1_000_000_000_000_000_000;

/// Typed failures of the risk engine. Every rejected action reports exactly
/// one of these to its caller; no error is ever downgraded or ignored.
#[derive(Clone, Copy, Debug, PartialEq, Eq, Structural)]
pub enum Error {
    /// The market has paused the mint (supply) action.
    MintIsPaused,
    /// The market has paused the borrow action.
    BorrowIsPaused,
    /// Seizing collateral is globally paused.
    SeizeIsPaused,
    /// Transfers of pool shares are globally paused.
    TransferIsPaused,
    /// A market involved in the action is not registered.
    MarketNotListed,
    /// The market is already registered and cannot be registered again.
    MarketAlreadyListed,
    /// The oracle returned no usable (missing or zero) price.
    PriceError,
    /// A pool's underlying asset is not configured.
    UnderlyingIsNotSet,
    /// The calling pool was not identified.
    PoolIsNotSet,
    /// No price oracle has been configured.
    OracleIsNotSet,
    /// The hypothetical position would have a borrow shortfall.
    InsufficientLiquidity,
    /// The borrower has no shortfall, so liquidation is not permitted.
    InsufficientShortfall,
    /// The repayment exceeds the close-factor bound.
    TooMuchRepay,
    /// The borrow would push total borrows past the market's borrow cap.
    BorrowCapReached,
    /// The collateral factor is outside the permitted range.
    InvalidCollateralFactor,
    /// No manager has been configured.
    ManagerIsNotSet,
    /// The caller is not the configured manager.
    CallerIsNotManager,
    /// A fixed-point computation left the 128-bit range.
    Overflow,
}

/// Per-market action named by pause events.
#[derive(Clone, Copy, Debug, PartialEq, Eq, Structural)]
pub enum PoolAction {
    Mint,
    Borrow,
}

/// Globally pausable action named by pause events.
#[derive(Clone, Copy, Debug, PartialEq, Eq, Structural)]
pub enum GlobalAction {
    Seize,
    Transfer,
}

/// Observability record appended by every successful admin operation,
/// carrying the relevant old and new values.
#[derive(Clone, Copy, Debug, PartialEq, Eq)]
pub enum Event {
    MarketListed { pool: AccountId },
    NewCollateralFactor { pool: AccountId, old_value: Mantissa, new_value: Mantissa },
    PoolActionPaused { pool: AccountId, action: PoolAction, paused: bool },
    ActionPaused { action: GlobalAction, paused: bool },
    NewPriceOracle { old_value: Option<AccountId>, new_value: Option<AccountId> },
    NewFlashloanGateway { old_value: Option<AccountId>, new_value: Option<AccountId> },
    NewCloseFactor { old_value: Mantissa, new_value: Mantissa },
    NewLiquidationIncentive { old_value: Mantissa, new_value: Mantissa },
    NewBorrowCap { pool: AccountId, new_value: Balance },
}

/// Snapshot of the calling pool's own view of one account, supplied by that
/// pool so the engine never has to call back into a contract that is mid-
/// mutation.
#[derive(Clone, Copy, Debug, PartialEq, Eq)]
pub struct PoolAttributes {
    pub underlying: Option<AccountId>,
    pub decimals: u8,
    pub account_balance: Balance,
    pub account_borrow_balance: Balance,
    pub exchange_rate: Mantissa,
    pub total_borrows: Balance,
}

impl Default for PoolAttributes {
    /// An empty snapshot: no underlying, zero balances and rates.
    fn default() -> (r: Self)
        ensures
            r.underlying is None,
            r.decimals == 0,
            r.account_balance == 0,
            r.account_borrow_balance == 0,
            r.exchange_rate == 0,
            r.total_borrows == 0,
    {
        PoolAttributes {
            underlying: None,
            decimals: 0,
            account_balance: 0,
            account_borrow_balance: 0,
            exchange_rate: 0,
            total_borrows: 0,
        }
    }
}

/// Pool data needed to price one side of a liquidation.
#[derive(Clone, Copy, Debug, PartialEq, Eq)]
pub struct PoolAttributesForSeizeCalculation {
    pub underlying: Option<AccountId>,
    pub decimals: u8,
}

/// Pool data for the withdrawal (health-factor) validation path, which
/// tracks a liquidation threshold distinct from the collateral factor.
#[derive(Clone, Copy, Debug, PartialEq, Eq)]
pub struct PoolAttributesForWithdrawValidation {
    pub pool: Option<AccountId>,
    pub underlying: Option<AccountId>,
    pub liquidation_threshold: Mantissa,
    pub account_balance: Balance,
    pub account_borrow_balance: Balance,
}

impl Default for PoolAttributesForWithdrawValidation {
    /// An empty record: no pool or underlying, zero threshold and balances.
    fn default() -> (r: Self)
        ensures
            r.pool is None,
            r.underlying is None,
            r.liquidation_threshold == 0,
            r.account_balance == 0,
            r.account_borrow_balance == 0,
    {
        PoolAttributesForWithdrawValidation {
            pool: None,
            underlying: None,
            liquidation_threshold: 0,
            account_balance: 0,
            account_borrow_balance: 0,
        }
    }
}

/// Aggregate position of an account across all its markets, in base-currency
/// units. The health factor is `u128::MAX` (treated as infinite) when the
/// account has no debt.
#[derive(Clone, Copy, Debug, PartialEq, Eq)]
pub struct AccountData {
    pub total_collateral_in_base_currency: u128,
    pub total_debt_in_base_currency: u128,
    pub avg_ltv: Mantissa,
    pub avg_liquidation_threshold: Mantissa,
    pub health_factor: u128,
}

/// One listed market's state in the outside world — pool balances for the
/// account under evaluation, token metadata and totals — as read by the
/// surrounding runtime and handed to the engine.
#[derive(Clone, Copy, Debug, PartialEq, Eq)]
pub struct PoolSnapshot {
    pub pool: AccountId,
    pub underlying: Option<AccountId>,
    pub decimals: u8,
    pub account_balance: Balance,
    pub account_borrow_balance: Balance,
    pub exchange_rate: Mantissa,
    pub total_borrows: Balance,
    pub liquidation_threshold: Mantissa,
}

} // verus!
