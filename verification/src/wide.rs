//! Wide fixed-point arithmetic: powers of ten and the single trusted
//! product-quotient primitive on which all mantissa math is built.

use vstd::prelude::*;
use vstd::arithmetic::div_mod::lemma_div_is_ordered;
use primitive_types::U256;
use primitive_types::U512;

verus! {

/// Ten to the power `e`, as an unbounded integer.
pub open spec fn pow10(e: nat) -> int
    decreases e,
{
    if e == 0 {
        1
    } else {
        10 * pow10((e - 1) as nat)
    }
}

pub proof fn lemma_pow10_positive(e: nat)
    ensures
        pow10(e) >= 1,
    decreases e,
{
    if e > 0 {
        lemma_pow10_positive((e - 1) as nat);
    }
}

pub proof fn lemma_pow10_increases(a: nat, b: nat)
    requires
        a <= b,
    ensures
        pow10(a) <= pow10(b),
    decreases b,
{
    if a < b {
        lemma_pow10_increases(a, (b - 1) as nat);
        lemma_pow10_positive((b - 1) as nat);
    }
}

/// `10^e` when it fits in 128 bits, `None` otherwise.
pub fn pow10_checked(e: u8) -> (r: Option<u128>)
    ensures
        match r {
            Some(v) => v == pow10(e as nat),
            None => pow10(e as nat) > u128::MAX,
        },
{
    let mut acc: u128 = 1;
    let mut i: u8 = 0;
    while i < e
        invariant
            i <= e,
            acc == pow10(i as nat),
        decreases e - i,
    {
        if acc > u128::MAX / 10 {
            proof {
                assert(10 * acc > u128::MAX);
                lemma_pow10_increases((i + 1) as nat, e as nat);
            }
            return None;
        }
        acc = acc * 10;
        i = i + 1;
    }
    Some(acc)
}

/// Exact truncated quotient of two four-factor products,
/// `(n1*n2*n3*n4) / (d1*d2*d3*d4)`, or `None` when the quotient does not
/// fit in 128 bits.
///
/// Relies on primitive_types: `U256::full_mul` returns the exact 512-bit
/// product of its operands, `U512` multiplication is exact here because a
/// product of four 128-bit factors is below 2^512, `U512` division truncates
/// toward zero, and `U512::low_u128` returns the value exactly once it is
/// known to be at most `u128::MAX`.
#[verifier::external_body]
pub(crate) fn wide_mul_div(
    n1: u128,
    n2: u128,
    n3: u128,
    n4: u128,
    d1: u128,
    d2: u128,
    d3: u128,
    d4: u128,
) -> (r: Option<u128>)
    requires
        d1 > 0,
        d2 > 0,
        d3 > 0,
        d4 > 0,
    ensures
        r == (if (n1 * n2 * n3 * n4) / (d1 * d2 * d3 * d4) <= u128::MAX {
            Some(((n1 * n2 * n3 * n4) / (d1 * d2 * d3 * d4)) as u128)
        } else {
            None::<u128>
        }),
{
    let num = U256::from(n1).full_mul(U256::from(n2)) * U512::from(n3) * U512::from(n4);
    let den = U256::from(d1).full_mul(U256::from(d2)) * U512::from(d3) * U512::from(d4);
    let q = num / den;
    if q > U512::from(u128::MAX) {
        None
    } else {
        Some(q.low_u128())
    }
}

/// A truncated quotient of nonnegative operands is nonnegative.
pub proof fn lemma_quotient_nonneg(n: int, d: int)
    requires
        n >= 0,
        d > 0,
    ensures
        n / d >= 0,
{
    lemma_div_is_ordered(0, n, d);
}

} // verus!
