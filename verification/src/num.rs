//! Small verified numeric helpers: flooring division and powers of two.

use vstd::prelude::*;
use vstd::arithmetic::power2::pow2;
use vstd::arithmetic::div_mod::{
    lemma_fundamental_div_mod, lemma_fundamental_div_mod_converse, lemma_div_nonincreasing,
};
use vstd::bits::{lemma_u64_shl_is_mul, lemma_u64_pow2_no_overflow};

verus! {

/// Division rounding towards negative infinity, matching the mathematical
/// (Euclidean) quotient for a positive divisor.
pub fn floor_div_i64(x: i64, d: i64) -> (r: i64)
    requires
        d > 0,
        x > i64::MIN,
    ensures
        r == x as int / d as int,
        x >= 0 ==> 0 <= r <= x,
        x < 0 ==> x <= r <= 0,
{
    let du = d as u64;
    if x >= 0 {
        proof { lemma_div_nonincreasing(x as int, du as int); }
        ((x as u64) / du) as i64
    } else {
        let m = (-x) as u64;
        let q = m / du;
        proof {
            lemma_div_nonincreasing(m as int, du as int);
            lemma_fundamental_div_mod(m as int, du as int);
            let qq = m as int / du as int;
            let rr = m as int % du as int;
            if m % du != 0 {
                assert(-(m as int) == (-qq - 1) * (du as int) + (du - rr)) by (nonlinear_arith)
                    requires m as int == (du as int) * qq + rr;
                assert(m as int >= qq + 1) by (nonlinear_arith)
                    requires m as int == (du as int) * qq + rr, rr >= 1, du >= 1, qq >= 0;
                lemma_fundamental_div_mod_converse(-(m as int), du as int, -qq - 1, du - rr);
            } else {
                assert(-(m as int) == (-qq) * (du as int) + 0) by (nonlinear_arith)
                    requires m as int == (du as int) * qq + rr, rr == 0;
                lemma_fundamental_div_mod_converse(-(m as int), du as int, -qq, 0);
            }
        }
        if m % du != 0 {
            -(q as i64) - 1
        } else {
            -(q as i64)
        }
    }
}

/// Computes `2^e` as a `u64`.
pub fn pow2_u64(e: u32) -> (r: u64)
    requires
        e <= 63,
    ensures
        r == pow2(e as nat),
{
    proof {
        lemma_u64_pow2_no_overflow(e as nat);
        lemma_u64_shl_is_mul(1u64, e as u64);
    }
    1u64 << (e as u64)
}

} // verus!
