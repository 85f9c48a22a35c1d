//! A test faucet that mints tokens to any account, either directly by
//! asset or through a pool's underlying asset. The token contracts a
//! deployed faucet would mint through are modelled by an explicit balance
//! ledger, so every mint is a pure, fully specified state change.

use vstd::prelude::*;
use crate::types::AccountId;
use crate::types::Balance;
use crate::types::PoolSnapshot;
use crate::controller::snapshot_at;

verus! {

/// Failures of a mint, mirroring a fungible-token error result.
#[derive(Clone, Copy, Debug, PartialEq, Eq, Structural)]
pub enum TokenError {
    /// The pool has no underlying asset configured.
    UnderlyingIsNotSet,
    /// The mint would overflow the recipient's balance.
    Overflow,
}

/// The balance recorded for `account` in `asset`: the most recent entry,
/// or zero when none exists.
pub open spec fn balance_of(
    entries: Seq<(AccountId, AccountId, Balance)>,
    asset: AccountId,
    account: AccountId,
) -> Balance
    decreases entries.len(),
{
    if entries.len() == 0 {
        0
    } else if entries.last().0 == asset && entries.last().1 == account {
        entries.last().2
    } else {
        balance_of(entries.drop_last(), asset, account)
    }
}

/// The underlying asset a pool reports, if its snapshot is present and
/// configured.
pub open spec fn underlying_of(pools: Seq<PoolSnapshot>, pool: AccountId) -> Option<AccountId> {
    match snapshot_at(pools, pool) {
        Some(s) => s.underlying,
        None => None,
    }
}

/// Whether one mint succeeds: only a balance overflow stops it.
pub open spec fn mint_outcome(
    entries: Seq<(AccountId, AccountId, Balance)>,
    asset: AccountId,
    account: AccountId,
    amount: Balance,
) -> Result<(), TokenError> {
    if balance_of(entries, asset, account) + amount > u128::MAX {
        Err(TokenError::Overflow)
    } else {
        Ok(())
    }
}

/// Result and ledger contents of minting `amount` of each listed pool's
/// underlying to `account`, in market order, stopping at the first
/// failure.
pub open spec fn mint_underlying_all_spec(
    entries: Seq<(AccountId, AccountId, Balance)>,
    pools: Seq<PoolSnapshot>,
    markets: Seq<AccountId>,
    account: AccountId,
    amount: Balance,
) -> (Result<(), TokenError>, Seq<(AccountId, AccountId, Balance)>)
    decreases markets.len(),
{
    if markets.len() == 0 {
        (Ok(()), entries)
    } else {
        match underlying_of(pools, markets.first()) {
            None => (Err(TokenError::UnderlyingIsNotSet), entries),
            Some(u) => {
                if balance_of(entries, u, account) + amount > u128::MAX {
                    (Err(TokenError::Overflow), entries)
                } else {
                    mint_underlying_all_spec(
                        entries.push((u, account, (balance_of(entries, u, account) + amount) as u128)),
                        pools,
                        markets.drop_first(),
                        account,
                        amount,
                    )
                }
            },
        }
    }
}

/// Token balances standing in for the fungible-token contracts a deployed
/// faucet would mint through.
#[derive(Clone, Debug)]
pub struct TokenLedger {
    pub entries: Vec<(AccountId, AccountId, Balance)>,
}

impl TokenLedger {
    /// A ledger with every balance zero.
    pub fn new() -> (r: Self)
        ensures
            r.entries@.len() == 0,
    {
        TokenLedger { entries: Vec::new() }
    }

    /// The balance of `account` in `asset`.
    pub fn balance_of(&self, asset: AccountId, account: AccountId) -> (r: Balance)
        ensures
            r == balance_of(self.entries@, asset, account),
    {
        let ghost all = self.entries@;
        let mut i: usize = self.entries.len();
        proof {
            assert(all.take(i as int) =~= all);
        }
        while i > 0
            invariant
                i <= self.entries@.len(),
                self.entries@ == all,
                balance_of(all.take(i as int), asset, account) == balance_of(all, asset, account),
            decreases i,
        {
            let entry = self.entries[i - 1];
            proof {
                assert(entry == all[i - 1]);
                assert(all.take(i as int).drop_last() =~= all.take(i - 1));
                assert(all.take(i as int).last() == all[i - 1]);
            }
            if entry.0 == asset && entry.1 == account {
                return entry.2;
            }
            i = i - 1;
        }
        0
    }

    /// Mints `amount` of `asset` to `account`: on success the balance
    /// grows by exactly `amount` and every other balance is unchanged; an
    /// overflowing mint fails and changes nothing.
    pub fn mint(&mut self, asset: AccountId, account: AccountId, amount: Balance) -> (r: Result<
        (),
        TokenError,
    >)
        ensures
            r == mint_outcome(old(self).entries@, asset, account, amount),
            r is Err ==> *final(self) == *old(self),
            r is Ok ==> final(self).entries@ == old(self).entries@.push(
                (
                    asset,
                    account,
                    (balance_of(old(self).entries@, asset, account) + amount) as u128,
                ),
            ),
            r is Ok ==> balance_of(final(self).entries@, asset, account) == balance_of(
                old(self).entries@,
                asset,
                account,
            ) + amount,
            forall|a2: AccountId, acc2: AccountId|
                a2 != asset || acc2 != account ==> balance_of(final(self).entries@, a2, acc2)
                    == balance_of(old(self).entries@, a2, acc2),
    {
        let current = self.balance_of(asset, account);
        let updated = match current.checked_add(amount) {
            Some(v) => v,
            None => {
                return Err(TokenError::Overflow);
            },
        };
        let ghost before = self.entries@;
        self.entries.push((asset, account, updated));
        proof {
            assert(self.entries@.drop_last() =~= before);
        }
        Ok(())
    }
}

/// The faucet holds no state of its own; it only forwards mints.
pub struct Faucet {}

impl Faucet {
    /// A faucet ready to mint.
    pub fn new() -> (r: Self) {
        Faucet {  }
    }

    /// Mints `amount` of `asset` to `account`, or to the caller when no
    /// account is given.
    pub fn mint(
        &self,
        ledger: &mut TokenLedger,
        caller: AccountId,
        asset: AccountId,
        amount: Balance,
        account: Option<AccountId>,
    ) -> (r: Result<(), TokenError>)
        ensures
            ({
                let target = match account {
                    Some(a) => a,
                    None => caller,
                };
                &&& r == mint_outcome(old(ledger).entries@, asset, target, amount)
                &&& (r is Err ==> *final(ledger) == *old(ledger))
                &&& (r is Ok ==> final(ledger).entries@ == old(ledger).entries@.push(
                    (
                        asset,
                        target,
                        (balance_of(old(ledger).entries@, asset, target) + amount) as u128,
                    ),
                ))
                &&& (r is Ok ==> balance_of(final(ledger).entries@, asset, target) == balance_of(
                    old(ledger).entries@,
                    asset,
                    target,
                ) + amount)
                &&& forall|a2: AccountId, acc2: AccountId|
                    a2 != asset || acc2 != target ==> balance_of(final(ledger).entries@, a2, acc2)
                        == balance_of(old(ledger).entries@, a2, acc2)
            }),
    {
        let target = match account {
            Some(a) => a,
            None => caller,
        };
        ledger.mint(asset, target, amount)
    }

    /// Mints `amount` of `pool`'s underlying to `account` (or the caller);
    /// a pool without a configured underlying is rejected.
    pub fn mint_underlying(
        &self,
        ledger: &mut TokenLedger,
        pools: &Vec<PoolSnapshot>,
        caller: AccountId,
        pool: AccountId,
        amount: Balance,
        account: Option<AccountId>,
    ) -> (r: Result<(), TokenError>)
        ensures
            ({
                let target = match account {
                    Some(a) => a,
                    None => caller,
                };
                match underlying_of(pools@, pool) {
                    None => r == Err::<(), TokenError>(TokenError::UnderlyingIsNotSet)
                        && *final(ledger) == *old(ledger),
                    Some(u) => {
                        &&& r == mint_outcome(old(ledger).entries@, u, target, amount)
                        &&& (r is Err ==> *final(ledger) == *old(ledger))
                        &&& (r is Ok ==> final(ledger).entries@ == old(ledger).entries@.push(
                            (
                                u,
                                target,
                                (balance_of(old(ledger).entries@, u, target) + amount) as u128,
                            ),
                        ))
                        &&& (r is Ok ==> balance_of(final(ledger).entries@, u, target)
                            == balance_of(old(ledger).entries@, u, target) + amount)
                        &&& forall|a2: AccountId, acc2: AccountId|
                            a2 != u || acc2 != target ==> balance_of(
                                final(ledger).entries@,
                                a2,
                                acc2,
                            ) == balance_of(old(ledger).entries@, a2, acc2)
                    },
                }
            }),
    {
        let u = match crate::controller::find_snapshot_index(pools, pool) {
            Some(k) => match pools[k].underlying {
                Some(u) => u,
                None => {
                    return Err(TokenError::UnderlyingIsNotSet);
                },
            },
            None => {
                return Err(TokenError::UnderlyingIsNotSet);
            },
        };
        self.mint(ledger, caller, u, amount, account)
    }

    /// Mints `amount` of every listed pool's underlying to `account` (or
    /// the caller), in market order; stops at the first failure, leaving
    /// the mints already made recorded.
    pub fn mint_underlying_all(
        &self,
        ledger: &mut TokenLedger,
        pools: &Vec<PoolSnapshot>,
        markets: &Vec<AccountId>,
        caller: AccountId,
        amount: Balance,
        account: Option<AccountId>,
    ) -> (r: Result<(), TokenError>)
        ensures
            ({
                let target = match account {
                    Some(a) => a,
                    None => caller,
                };
                let expected = mint_underlying_all_spec(
                    old(ledger).entries@,
                    pools@,
                    markets@,
                    target,
                    amount,
                );
                r == expected.0 && final(ledger).entries@ == expected.1
            }),
    {
        let target = match account {
            Some(a) => a,
            None => caller,
        };
        let ghost mv = markets@;
        let n = markets.len();
        let mut i: usize = 0;
        proof {
            assert(mv.skip(0) =~= mv);
        }
        while i < n
            invariant
                0 <= i <= n,
                n == mv.len(),
                markets@ == mv,
                target == (match account {
                    Some(a) => a,
                    None => caller,
                }),
                mint_underlying_all_spec(old(ledger).entries@, pools@, mv, target, amount)
                    == mint_underlying_all_spec(
                    ledger.entries@,
                    pools@,
                    mv.skip(i as int),
                    target,
                    amount,
                ),
            decreases n - i,
        {
            proof {
                assert(mv.skip(i as int).first() == mv[i as int]);
                assert(mv.skip(i as int).drop_first() =~= mv.skip(i as int + 1));
            }
            match self.mint_underlying(ledger, pools, caller, markets[i], amount, account) {
                Err(e) => {
                    return Err(e);
                },
                Ok(()) => {},
            }
            i = i + 1;
        }
        proof {
            assert(mv.skip(n as int) =~= Seq::<AccountId>::empty());
        }
        Ok(())
    }
}

} // verus!
