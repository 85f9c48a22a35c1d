//! Fixed-price oracle: a table of per-asset prices with last-write-wins
//! semantics. The engine treats a missing or zero price as unusable.

use vstd::prelude::*;
use crate::types::AccountId;

verus! {

/// The price recorded for `asset`, i.e. the value of the most recent entry
/// for it, if any.
pub open spec fn price_of(entries: Seq<(AccountId, u128)>, asset: AccountId) -> Option<u128>
    decreases entries.len(),
{
    if entries.len() == 0 {
        None
    } else if entries.last().0 == asset {
        Some(entries.last().1)
    } else {
        price_of(entries.drop_last(), asset)
    }
}

/// A table of fixed per-asset prices, scaled by `PRICE_PRECISION`.
#[derive(Clone, Debug)]
pub struct PriceOracle {
    pub fixed_prices: Vec<(AccountId, u128)>,
}

impl PriceOracle {
    /// An oracle with no prices recorded.
    pub fn new() -> (r: Self)
        ensures
            r.fixed_prices@.len() == 0,
    {
        PriceOracle { fixed_prices: Vec::new() }
    }

    /// The most recently recorded price for `asset`, if any.
    pub fn get_price(&self, asset: AccountId) -> (r: Option<u128>)
        ensures
            r == price_of(self.fixed_prices@, asset),
    {
        let entries = &self.fixed_prices;
        let ghost all = entries@;
        let mut i: usize = entries.len();
        proof {
            assert(all.take(i as int) =~= all);
        }
        while i > 0
            invariant
                i <= entries@.len(),
                entries@ == all,
                self.fixed_prices@ == all,
                price_of(all.take(i as int), asset) == price_of(all, asset),
            decreases i,
        {
            let entry = entries[i - 1];
            proof {
                assert(entry == all[i - 1]);
                assert(all.take(i as int).drop_last() =~= all.take(i - 1));
                assert(all.take(i as int).last() == all[i - 1]);
            }
            if entry.0 == asset {
                proof {
                    assert(all.take(i as int).len() > 0);
                    assert(price_of(all.take(i as int), asset) == Some(all[i - 1].1));
                }
                return Some(entry.1);
            }
            i = i - 1;
        }
        None
    }

    /// Records `value` as the price of `asset`; later reads of `asset`
    /// return it, and prices of other assets are unchanged.
    pub fn set_fixed_price(&mut self, asset: AccountId, value: u128) -> (r: Result<(), crate::types::Error>)
        ensures
            r is Ok,
            final(self).fixed_prices@ == old(self).fixed_prices@.push((asset, value)),
            price_of(final(self).fixed_prices@, asset) == Some(value),
            forall|a: AccountId|
                a != asset ==> price_of(final(self).fixed_prices@, a) == price_of(
                    old(self).fixed_prices@,
                    a,
                ),
    {
        let ghost before = self.fixed_prices@;
        self.fixed_prices.push((asset, value));
        proof {
            assert(self.fixed_prices@.drop_last() =~= before);
        }
        Ok(())
    }
}

} // verus!
