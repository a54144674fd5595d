//! Conversions between decimals and whole token amounts.
use vstd::prelude::*;
use crate::decimal::{lemma_pow10_18, pow10, Decimal, DECIMAL_FRACTIONAL, DECIMAL_PLACES};

verus! {

/// The whole part of a decimal: its value rounded down to an integer.
pub open spec fn whole_part(d: Decimal) -> u128 {
    (d.atomics / DECIMAL_FRACTIONAL) as u128
}

/// `10^n` for the `n` up to 38 whose power fits in a `u128`.
fn pow10_u128(n: u32) -> (r: u128)
    requires
        n <= 38,
    ensures
        r == pow10(n as nat),
{
    let mut r: u128 = 1;
    let mut i: u32 = 0;
    while i < n
        invariant
            i <= n <= 38,
            r == pow10(i as nat),
        decreases n - i,
    {
        proof {
            lemma_pow10_bound(i as nat);
        }
        r = r * 10;
        i = i + 1;
    }
    r
}

/// `10^n` grows with `n`.
proof fn lemma_pow10_monotone(n: nat, m: nat)
    requires
        n <= m,
    ensures
        pow10(n) <= pow10(m),
    decreases m - n,
{
    if n < m {
        lemma_pow10_monotone(n, (m - 1) as nat);
    }
}

/// `10^n` fits in a `u128` up to `n = 37`, with room for one more factor of ten.
proof fn lemma_pow10_bound(n: nat)
    requires
        n <= 37,
    ensures
        pow10(n) * 10 <= u128::MAX,
{
    reveal_with_fuel(pow10, 39);
    assert(pow10(38) == 100_000_000_000_000_000_000_000_000_000_000_000_000nat);
    lemma_pow10_monotone(n + 1, 38);
}

/// The whole part of `decimal`: its atomics divided by `10^decimal_places`.
pub fn decimal_to_u128(decimal: Decimal) -> (r: u128)
    ensures
        r == whole_part(decimal),
{
    let atomics = decimal.atomics();
    let denominator = pow10_u128(decimal.decimal_places());
    proof {
        lemma_pow10_18();
    }
    atomics / denominator
}

} // verus!
