use vstd::prelude::*;
use crate::errors::ErrorCode;

verus! {

/// Largest fee rate, in hundredths of a basis point.
pub const MAX_FEE_RATE: u16 = 60_000;
/// Pools with a tick spacing at or above this value only allow full-range positions.
pub const FULL_RANGE_ONLY_TICK_SPACING_THRESHOLD: u16 = 32768;

/// 2^128, the modulus of `u128` arithmetic.
pub open spec fn u128_modulus() -> int {
    u128::MAX as int + 1
}

/// `a - b` modulo 2^128, as `u128::wrapping_sub` computes it.
pub open spec fn growth_sub(a: u128, b: u128) -> u128 {
    if a >= b {
        (a - b) as u128
    } else {
        (a - b + u128_modulus()) as u128
    }
}

/// `a - b` modulo 2^128.
pub fn wrapping_growth_sub(a: u128, b: u128) -> (r: u128)
    ensures
        r == growth_sub(a, b),
{
    a.wrapping_sub(b)
}

/// The absolute value of `x` as an unsigned integer.
pub fn unsigned_abs_i128(x: i128) -> (r: u128)
    ensures
        r == (if x >= 0 { x as int } else { -(x as int) }),
{
    if x >= 0 {
        x as u128
    } else {
        let m = -(x + 1);
        (m as u128) + 1
    }
}

/// What adding `delta` to `liquidity` yields: the sum, or the error for a
/// sum above `u128::MAX` or below zero.
pub open spec fn spec_add_liquidity_delta(liquidity: u128, delta: i128) -> Result<u128, ErrorCode> {
    let s = liquidity + delta;
    if s > u128::MAX {
        Err(ErrorCode::LiquidityOverflow)
    } else if s < 0 {
        Err(ErrorCode::LiquidityUnderflow)
    } else {
        Ok(s as u128)
    }
}

/// Add a signed liquidity delta to an unsigned liquidity amount.
pub fn add_liquidity_delta(liquidity: u128, delta: i128) -> (r: Result<u128, ErrorCode>)
    ensures
        r == spec_add_liquidity_delta(liquidity, delta),
{
    if delta == 0 {
        return Ok(liquidity);
    }
    if delta > 0 {
        match liquidity.checked_add(delta as u128) {
            Some(v) => Ok(v),
            None => Err(ErrorCode::LiquidityOverflow),
        }
    } else {
        match liquidity.checked_sub(unsigned_abs_i128(delta)) {
            Some(v) => Ok(v),
            None => Err(ErrorCode::LiquidityUnderflow),
        }
    }
}

/// Floor of `dividend / divisor` for a positive divisor.
pub fn floor_division(dividend: i32, divisor: i32) -> (r: i32)
    requires
        divisor > 0,
    ensures
        r == (dividend as int) / (divisor as int),
{
    let q = dividend / divisor;
    let rem = dividend % divisor;
    proof {
        let a = dividend as int;
        let b = divisor as int;
        vstd::arithmetic::div_mod::lemma_fundamental_div_mod(a, b);
        if a < 0 {
            vstd::arithmetic::div_mod::lemma_fundamental_div_mod(-a, b);
        }
    }
    if rem == 0 || dividend > 0 {
        proof {
            let a = dividend as int;
            let b = divisor as int;
            if a < 0 {
                // the remainder is zero: b divides -a, hence b divides a
                let k = (-a) / b;
                assert(a == (-k) * b) by (nonlinear_arith)
                    requires -a == b * k + 0;
                vstd::arithmetic::div_mod::lemma_div_multiples_vanish(-k, b);
                assert(b * (-k) == (-k) * b) by (nonlinear_arith);
            }
        }
        q
    } else {
        proof {
            let a = dividend as int;
            let b = divisor as int;
            let k = (-a) / b;
            let m = (-a) % b;
            assert(a == (-k - 1) * b + (b - m)) by (nonlinear_arith)
                requires -a == b * k + m;
            vstd::arithmetic::div_mod::lemma_div_multiples_vanish_fancy(-k - 1, b - m, b);
            assert(b * (-k - 1) == (-k - 1) * b) by (nonlinear_arith);
            assert(k <= 0x8000_0000int) by (nonlinear_arith)
                requires -a == b * k + m, 0 <= m, b >= 1, -a <= 0x8000_0000int, k >= 0;
            assert(k != 0x8000_0000int) by (nonlinear_arith)
                requires -a == b * k + m, 0 < m, b >= 1, -a <= 0x8000_0000int;
        }
        q - 1
    }
}

} // verus!
