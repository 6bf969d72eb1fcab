use vstd::prelude::*;
use vstd::arithmetic::div_mod::*;
use vstd::arithmetic::mul::*;

use crate::error::AdrenaError;

verus! {

/// Basis points: a multiplier of `BPS_POWER` is a factor of one.
pub const BPS_POWER: u128 = 10_000u128;

/// Decimals of a staking round rate.
pub const RATE_DECIMALS: u32 = 9u32;

/// `10^RATE_DECIMALS`.
pub const RATE_POWER: u128 = 1_000_000_000u128;

/// Decimals of every USD amount.
pub const USD_DECIMALS: u32 = 6u32;

/// Decimals of the LP token.
pub const LP_DECIMALS: u32 = 6u32;

/// Decimals of the LM (governance and rewards) token.
pub const LM_DECIMALS: u32 = 6u32;

/// Decimals of an oracle price.
pub const PRICE_DECIMALS: u32 = 10u32;

/// `a + b` wrapped around at `2^64`.
pub open spec fn wrapped_sum(a: u64, b: u64) -> u64 {
    if a + b > u64::MAX {
        (a + b - 0x1_0000_0000_0000_0000int) as u64
    } else {
        (a + b) as u64
    }
}

/// `10^n`.
pub open spec fn pow10(n: nat) -> nat
    decreases n,
{
    if n == 0 {
        1
    } else {
        10 * pow10((n - 1) as nat)
    }
}

pub proof fn lemma_pow10_positive(n: nat)
    ensures
        pow10(n) >= 1,
    decreases n,
{
    if n > 0 {
        lemma_pow10_positive((n - 1) as nat);
    }
}

pub proof fn lemma_pow10_monotone(a: nat, b: nat)
    requires
        a <= b,
    ensures
        pow10(a) <= pow10(b),
    decreases b,
{
    if a < b {
        lemma_pow10_monotone(a, (b - 1) as nat);
        lemma_pow10_positive((b - 1) as nat);
    }
}

proof fn lemma_pow10_39()
    ensures
        pow10(39) > u128::MAX,
{
    reveal_with_fuel(pow10, 40);
}

/// The value of `v` as a `u64`, or `MathOverflow` where it does not fit.
pub fn checked_as_u64(v: u128) -> (r: Result<u64, AdrenaError>)
    ensures
        v <= u64::MAX ==> r == Ok::<u64, AdrenaError>(v as u64),
        v > u64::MAX ==> r == Err::<u64, AdrenaError>(AdrenaError::MathOverflow),
{
    if v <= u64::MAX as u128 {
        Ok(v as u64)
    } else {
        Err(AdrenaError::MathOverflow)
    }
}

/// The value of `v` as an `i64`, or `MathOverflow` where it does not fit.
pub fn checked_as_i64(v: u64) -> (r: Result<i64, AdrenaError>)
    ensures
        v <= i64::MAX ==> r == Ok::<i64, AdrenaError>(v as i64),
        v > i64::MAX ==> r == Err::<i64, AdrenaError>(AdrenaError::MathOverflow),
{
    if v <= i64::MAX as u64 {
        Ok(v as i64)
    } else {
        Err(AdrenaError::MathOverflow)
    }
}

/// The value of a signed `v` as a `u64`, or `MathOverflow` where it is negative.
pub fn checked_i64_as_u64(v: i64) -> (r: Result<u64, AdrenaError>)
    ensures
        v >= 0 ==> r == Ok::<u64, AdrenaError>(v as u64),
        v < 0 ==> r == Err::<u64, AdrenaError>(AdrenaError::MathOverflow),
{
    if v >= 0 {
        Ok(v as u64)
    } else {
        Err(AdrenaError::MathOverflow)
    }
}

/// `amount * multiplier / BPS_POWER`, rounded down: a basis-point multiplier applied to an amount.
pub open spec fn bps_mul_value(amount: nat, multiplier: nat) -> nat {
    (amount * multiplier) / (BPS_POWER as nat)
}

/// Applies a basis-point multiplier to an amount, rounding down; `MathOverflow` where the
/// result does not fit in a `u64`.
pub fn checked_bps_mul(amount: u64, multiplier: u64) -> (r: Result<u64, AdrenaError>)
    ensures
        bps_mul_value(amount as nat, multiplier as nat) <= u64::MAX ==> r == Ok::<u64, AdrenaError>(
            bps_mul_value(amount as nat, multiplier as nat) as u64,
        ),
        bps_mul_value(amount as nat, multiplier as nat) > u64::MAX ==> r == Err::<u64, AdrenaError>(
            AdrenaError::MathOverflow,
        ),
{
    proof {
        lemma_mul_upper_bound(amount as int, u64::MAX as int, multiplier as int, u64::MAX as int);
    }
    let product: u128 = amount as u128 * multiplier as u128;
    checked_as_u64(product / BPS_POWER)
}

/// `10^n` as a `u128`, or `MathOverflow` where it does not fit.
pub fn checked_pow10(n: u32) -> (r: Result<u128, AdrenaError>)
    ensures
        pow10(n as nat) <= u128::MAX ==> r == Ok::<u128, AdrenaError>(pow10(n as nat) as u128),
        pow10(n as nat) > u128::MAX ==> r == Err::<u128, AdrenaError>(AdrenaError::MathOverflow),
        r matches Ok(v) ==> v >= 1,
{
    proof {
        lemma_pow10_positive(n as nat);
    }
    let mut acc: u128 = 1;
    let mut i: u32 = 0;
    while i < n
        invariant
            i <= n,
            acc == pow10(i as nat),
        decreases n - i,
    {
        if acc > u128::MAX / 10 {
            proof {
                lemma_pow10_monotone((i + 1) as nat, n as nat);
            }
            return Err(AdrenaError::MathOverflow);
        }
        acc = acc * 10;
        i = i + 1;
    }
    Ok(acc)
}

/// The value, in units of `10^target`, of the product of `c1 * 10^e1` and `c2 * 10^e2`,
/// rounded down.
pub open spec fn decimal_mul_value(c1: nat, e1: int, c2: nat, e2: int, target: int) -> nat {
    let p = e1 + e2 - target;
    if p >= 0 {
        c1 * c2 * pow10(p as nat)
    } else {
        (c1 * c2) / pow10((-p) as nat)
    }
}

/// The value, in units of `10^target`, of the quotient of `c1 * 10^e1` by `c2 * 10^e2`,
/// rounded down.
pub open spec fn decimal_div_value(c1: nat, e1: int, c2: nat, e2: int, target: int) -> nat {
    let p = e1 - e2 - target;
    if p >= 0 {
        (c1 * pow10(p as nat)) / c2
    } else {
        c1 / (c2 * pow10((-p) as nat))
    }
}

proof fn lemma_product_bound(a: nat, b: nat, m: nat)
    requires
        a >= 1,
        b > m,
    ensures
        a * b > m,
{
    lemma_mul_inequality(1, a as int, b as int);
}

proof fn lemma_small_div(n: nat, d: nat)
    requires
        n < d,
    ensures
        n / d == 0,
{
    lemma_basic_div(n as int, d as int);
}

/// Where `n >= 2^128` and `0 < d <= u64::MAX`, `n / d` does not fit in a `u64`.
proof fn lemma_wide_div(n: nat, d: nat)
    requires
        n > u128::MAX,
        0 < d <= u64::MAX,
    ensures
        n / d > u64::MAX,
{
    lemma_fundamental_div_mod(n as int, d as int);
    lemma_mod_bound(n as int, d as int);
    let q = n / d;
    if q <= u64::MAX {
        lemma_mul_inequality(q as int, u64::MAX as int, d as int);
        assert(d * q <= d * (u64::MAX as nat)) by {
            lemma_mul_is_commutative(q as int, d as int);
            lemma_mul_is_commutative(u64::MAX as int, d as int);
        }
        lemma_mul_inequality(d as int, u64::MAX as int, (u64::MAX + 1) as int);
        assert(d * (u64::MAX as nat) + d == d * (u64::MAX + 1)) by {
            lemma_mul_is_distributive_add(d as int, u64::MAX as int, 1);
        }
        assert((u64::MAX + 1) * (u64::MAX + 1) == u128::MAX + 1);
        lemma_mul_inequality(d as int, (u64::MAX + 1) as int, (u64::MAX + 1) as int);
        assert(false);
    }
}

/// Multiplies two decimal numbers and expresses the product with exponent `target`,
/// rounding down; `MathOverflow` where the result does not fit in a `u64`.
pub fn checked_decimal_mul(c1: u64, e1: i32, c2: u64, e2: i32, target: i32) -> (r: Result<
    u64,
    AdrenaError,
>)
    ensures
        decimal_mul_value(c1 as nat, e1 as int, c2 as nat, e2 as int, target as int) <= u64::MAX
            ==> r == Ok::<u64, AdrenaError>(
            decimal_mul_value(c1 as nat, e1 as int, c2 as nat, e2 as int, target as int) as u64,
        ),
        decimal_mul_value(c1 as nat, e1 as int, c2 as nat, e2 as int, target as int) > u64::MAX
            ==> r == Err::<u64, AdrenaError>(AdrenaError::MathOverflow),
{
    let ghost value = decimal_mul_value(c1 as nat, e1 as int, c2 as nat, e2 as int, target as int);
    proof {
        lemma_mul_upper_bound(c1 as int, u64::MAX as int, c2 as int, u64::MAX as int);
        assert((u64::MAX as int) * (u64::MAX as int) <= u128::MAX);
    }
    let product: u128 = c1 as u128 * c2 as u128;
    let p: i64 = e1 as i64 + e2 as i64 - target as i64;
    if product == 0 {
        proof {
            if p >= 0 {
                lemma_mul_basics(pow10(p as nat) as int);
            } else {
                lemma_pow10_positive((-p) as nat);
                lemma_small_div(0, pow10((-p) as nat));
            }
        }
        return Ok(0);
    }
    if p >= 0 {
        if p > u32::MAX as i64 {
            proof {
                lemma_pow10_monotone(39, p as nat);
                lemma_pow10_39();
                lemma_product_bound(product as nat, pow10(p as nat), u64::MAX as nat);
            }
            return Err(AdrenaError::MathOverflow);
        }
        match checked_pow10(p as u32) {
            Err(e) => {
                proof {
                    lemma_product_bound(product as nat, pow10(p as nat), u64::MAX as nat);
                }
                Err(e)
            },
            Ok(scale) => {
                if product > u128::MAX / scale {
                    proof {
                        lemma_div_is_ordered_by_denominator(u128::MAX as int, 1, scale as int);
                        lemma_fundamental_div_mod(u128::MAX as int, scale as int);
                        lemma_mod_bound(u128::MAX as int, scale as int);
                        let q = u128::MAX / scale;
                        lemma_mul_inequality((q + 1) as int, product as int, scale as int);
                        assert((q + 1) * scale == q * scale + scale) by {
                            lemma_mul_is_distributive_add_other_way(scale as int, q as int, 1);
                        }
                        lemma_mul_is_commutative(q as int, scale as int);
                    }
                    return Err(AdrenaError::MathOverflow);
                }
                proof {
                    lemma_mul_inequality(product as int, (u128::MAX / scale) as int, scale as int);
                    lemma_fundamental_div_mod(u128::MAX as int, scale as int);
                    lemma_mod_bound(u128::MAX as int, scale as int);
                    lemma_mul_is_commutative((u128::MAX / scale) as int, scale as int);
                }
                checked_as_u64(product * scale)
            },
        }
    } else {
        let k: i64 = -p;
        if k > u32::MAX as i64 {
            proof {
                lemma_pow10_monotone(39, k as nat);
                lemma_pow10_39();
                lemma_small_div(product as nat, pow10(k as nat));
            }
            return Ok(0);
        }
        match checked_pow10(k as u32) {
            Err(_) => {
                proof {
                    lemma_small_div(product as nat, pow10(k as nat));
                }
                Ok(0)
            },
            Ok(scale) => {
                proof {
                    lemma_pow10_positive(k as nat);
                    lemma_div_is_ordered_by_denominator(product as int, 1, scale as int);
                }
                checked_as_u64(product / scale)
            },
        }
    }
}

/// Divides two decimal numbers and expresses the quotient with exponent `target`, rounding
/// down; `MathOverflow` where the divisor is zero or the result does not fit in a `u64`.
pub fn checked_decimal_div(c1: u64, e1: i32, c2: u64, e2: i32, target: i32) -> (r: Result<
    u64,
    AdrenaError,
>)
    ensures
        c2 == 0 ==> r == Err::<u64, AdrenaError>(AdrenaError::MathOverflow),
        c2 != 0 && decimal_div_value(c1 as nat, e1 as int, c2 as nat, e2 as int, target as int)
            <= u64::MAX ==> r == Ok::<u64, AdrenaError>(
            decimal_div_value(c1 as nat, e1 as int, c2 as nat, e2 as int, target as int) as u64,
        ),
        c2 != 0 && decimal_div_value(c1 as nat, e1 as int, c2 as nat, e2 as int, target as int)
            > u64::MAX ==> r == Err::<u64, AdrenaError>(AdrenaError::MathOverflow),
{
    if c2 == 0 {
        return Err(AdrenaError::MathOverflow);
    }
    let p: i64 = e1 as i64 - e2 as i64 - target as i64;
    if c1 == 0 {
        proof {
            if p >= 0 {
                lemma_mul_basics(pow10(p as nat) as int);
                lemma_small_div(0, c2 as nat);
            } else {
                lemma_pow10_positive((-p) as nat);
                lemma_product_bound(c2 as nat, pow10((-p) as nat), 0);
                lemma_small_div(0, c2 as nat * pow10((-p) as nat));
            }
        }
        return Ok(0);
    }
    if p >= 0 {
        if p > u32::MAX as i64 {
            proof {
                lemma_pow10_monotone(39, p as nat);
                lemma_pow10_39();
                lemma_product_bound(c1 as nat, pow10(p as nat), u128::MAX as nat);
                lemma_wide_div(c1 as nat * pow10(p as nat), c2 as nat);
            }
            return Err(AdrenaError::MathOverflow);
        }
        match checked_pow10(p as u32) {
            Err(e) => {
                proof {
                    lemma_product_bound(c1 as nat, pow10(p as nat), u128::MAX as nat);
                    lemma_wide_div(c1 as nat * pow10(p as nat), c2 as nat);
                }
                Err(e)
            },
            Ok(scale) => {
                if c1 as u128 > u128::MAX / scale {
                    proof {
                        lemma_fundamental_div_mod(u128::MAX as int, scale as int);
                        lemma_mod_bound(u128::MAX as int, scale as int);
                        let q = u128::MAX / scale;
                        lemma_mul_inequality((q + 1) as int, c1 as int, scale as int);
                        assert((q + 1) * scale == q * scale + scale) by {
                            lemma_mul_is_distributive_add_other_way(scale as int, q as int, 1);
                        }
                        lemma_mul_is_commutative(q as int, scale as int);
                        lemma_wide_div(c1 as nat * pow10(p as nat), c2 as nat);
                    }
                    return Err(AdrenaError::MathOverflow);
                }
                proof {
                    lemma_mul_inequality(c1 as int, (u128::MAX / scale) as int, scale as int);
                    lemma_fundamental_div_mod(u128::MAX as int, scale as int);
                    lemma_mod_bound(u128::MAX as int, scale as int);
                    lemma_mul_is_commutative((u128::MAX / scale) as int, scale as int);
                }
                let scaled: u128 = c1 as u128 * scale;
                checked_as_u64(scaled / c2 as u128)
            },
        }
    } else {
        let k: i64 = -p;
        if k > u32::MAX as i64 {
            proof {
                lemma_pow10_monotone(39, k as nat);
                lemma_pow10_39();
                lemma_product_bound(c2 as nat, pow10(k as nat), u128::MAX as nat);
                lemma_small_div(c1 as nat, c2 as nat * pow10(k as nat));
            }
            return Ok(0);
        }
        match checked_pow10(k as u32) {
            Err(_) => {
                proof {
                    lemma_product_bound(c2 as nat, pow10(k as nat), u128::MAX as nat);
                    lemma_small_div(c1 as nat, c2 as nat * pow10(k as nat));
                }
                Ok(0)
            },
            Ok(scale) => {
                if c2 as u128 > u128::MAX / scale {
                    proof {
                        lemma_fundamental_div_mod(u128::MAX as int, scale as int);
                        lemma_mod_bound(u128::MAX as int, scale as int);
                        let q = u128::MAX / scale;
                        lemma_mul_inequality((q + 1) as int, c2 as int, scale as int);
                        assert((q + 1) * scale == q * scale + scale) by {
                            lemma_mul_is_distributive_add_other_way(scale as int, q as int, 1);
                        }
                        lemma_mul_is_commutative(q as int, scale as int);
                        lemma_small_div(c1 as nat, c2 as nat * pow10(k as nat));
                    }
                    return Ok(0);
                }
                proof {
                    lemma_mul_inequality(c2 as int, (u128::MAX / scale) as int, scale as int);
                    lemma_fundamental_div_mod(u128::MAX as int, scale as int);
                    lemma_mod_bound(u128::MAX as int, scale as int);
                    lemma_mul_is_commutative((u128::MAX / scale) as int, scale as int);
                    lemma_pow10_positive(k as nat);
                    lemma_product_bound(c2 as nat, scale as nat, 0);
                    lemma_div_is_ordered_by_denominator(c1 as int, 1, (c2 as nat * scale) as int);
                }
                let denominator: u128 = c2 as u128 * scale;
                checked_as_u64(c1 as u128 / denominator)
            },
        }
    }
}

} // verus!
