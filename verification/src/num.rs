//! Fixed-point numeric utilities: division with round-half-away-from-zero,
//! rounding to milli-units, and linear interpolation.
//!
//! Coordinates are carried in micro-units (`1` unit = `1_000_000` micros) and
//! rounded to milli-units (three decimal places) just before serialization.

use vstd::prelude::*;

verus! {

use vstd::arithmetic::div_mod::{
    lemma_fundamental_div_mod,
    lemma_fundamental_div_mod_converse,
    lemma_mod_bound,
    lemma_div_pos_is_pos,
};

/// `THOUSAND` separates micro-units from milli-units.
pub const THOUSAND: i64 = 1000;

/// Quotient `n / d` for a positive divisor, rounded to the nearest integer,
/// halves away from zero.
pub open spec fn rdiv(n: int, d: int) -> int
    recommends
        d > 0,
{
    if n >= 0 {
        (2 * n + d) / (2 * d)
    } else {
        -((2 * (-n) + d) / (2 * d))
    }
}

/// `rdiv` extended to divisors of either sign: the quotient of `n / d`
/// equals the quotient of `(-n) / (-d)`.
pub open spec fn rdiv_s(n: int, d: int) -> int
    recommends
        d != 0,
{
    if d > 0 {
        rdiv(n, d)
    } else {
        rdiv(-n, -d)
    }
}

/// The rounding error of `rdiv` is at most half a unit of the divisor:
/// `-d <= 2 * (rdiv(n, d) * d - n) <= d`.
pub proof fn lemma_rdiv_error(n: int, d: int)
    requires
        d > 0,
    ensures
        2 * (rdiv(n, d) * d - n) <= d,
        -d <= 2 * (rdiv(n, d) * d - n),
{
    if n >= 0 {
        let m = 2 * n + d;
        let dd = 2 * d;
        lemma_fundamental_div_mod(m, dd);
        lemma_mod_bound(m, dd);
        let q = m / dd;
        let r = m % dd;
        assert(m == dd * q + r);
        assert((2 * d) * q == 2 * (q * d)) by (nonlinear_arith);
        assert(2 * (q * d - n) == d - r);
    } else {
        let p = -n;
        let m = 2 * p + d;
        let dd = 2 * d;
        lemma_fundamental_div_mod(m, dd);
        lemma_mod_bound(m, dd);
        let q = m / dd;
        let r = m % dd;
        assert(m == dd * q + r);
        assert((2 * d) * q == 2 * (q * d)) by (nonlinear_arith);
        assert(2 * (q * d - p) == d - r);
        assert(rdiv(n, d) == -q);
        assert((-q) * d == -(q * d)) by (nonlinear_arith);
        assert(2 * ((-q) * d - n) == -(d - r));
    }
}

/// `rdiv` of an exact multiple recovers the factor.
pub proof fn lemma_rdiv_exact(k: int, d: int)
    requires
        d > 0,
    ensures
        rdiv(k * d, d) == k,
{
    if k >= 0 {
        assert(2 * (k * d) + d == (2 * d) * k + d) by (nonlinear_arith);
        lemma_fundamental_div_mod_converse(2 * (k * d) + d, 2 * d, k, d);
    } else {
        assert(k * d < 0) by (nonlinear_arith)
            requires k < 0 && d > 0;
        assert(-(k * d) == (-k) * d) by (nonlinear_arith);
        assert(2 * ((-k) * d) + d == (2 * d) * (-k) + d) by (nonlinear_arith);
        lemma_fundamental_div_mod_converse(2 * ((-k) * d) + d, 2 * d, -k, d);
    }
}

/// The magnitude of a rounded quotient never exceeds the magnitude of the
/// dividend (the divisor is at least one).
pub proof fn lemma_rdiv_mag(n: int, d: int)
    requires
        d > 0,
    ensures
        n >= 0 ==> 0 <= rdiv(n, d) <= n,
        n < 0 ==> n <= rdiv(n, d) <= 0,
{
    if n >= 0 {
        lemma_div_pos_is_pos(2 * n + d, 2 * d);
        let q = (2 * n + d) / (2 * d);
        lemma_fundamental_div_mod(2 * n + d, 2 * d);
        lemma_mod_bound(2 * n + d, 2 * d);
        assert(q <= n) by {
            if q > n {
                assert((2 * d) * q >= (2 * d) * (n + 1)) by (nonlinear_arith)
                    requires q >= n + 1 && d > 0;
                assert((2 * d) * (n + 1) == 2 * d * n + 2 * d) by (nonlinear_arith);
                assert(2 * d * n >= 2 * n) by (nonlinear_arith)
                    requires d >= 1 && n >= 0;
            }
        }
    } else {
        let p = -n;
        lemma_div_pos_is_pos(2 * p + d, 2 * d);
        let q = (2 * p + d) / (2 * d);
        lemma_fundamental_div_mod(2 * p + d, 2 * d);
        lemma_mod_bound(2 * p + d, 2 * d);
        assert(q <= p) by {
            if q > p {
                assert((2 * d) * q >= (2 * d) * (p + 1)) by (nonlinear_arith)
                    requires q >= p + 1 && d > 0;
                assert((2 * d) * (p + 1) == 2 * d * p + 2 * d) by (nonlinear_arith);
                assert(2 * d * p >= 2 * p) by (nonlinear_arith)
                    requires d >= 1 && p >= 0;
            }
        }
    }
}

/// Rounds a micro-unit value to the nearest milli-unit, halves away from
/// zero; the result is expressed in micro-units (a multiple of 1000).
pub open spec fn round3(x: int) -> int {
    1000 * rdiv(x, 1000)
}

/// The milli-unit count of a micro-unit value after rounding.
pub open spec fn millis_of(x: int) -> int {
    rdiv(x, 1000)
}

/// Rounding moves a value by at most half a milli-unit (500 micros).
pub proof fn lemma_round3_error(x: int)
    ensures
        -500 <= round3(x) - x <= 500,
{
    lemma_rdiv_error(x, 1000);
    assert(2 * (rdiv(x, 1000) * 1000 - x) == 2 * (round3(x) - x)) by (nonlinear_arith);
}

/// Rounding is idempotent.
pub proof fn lemma_round3_idempotent(x: int)
    ensures
        round3(round3(x)) == round3(x),
{
    lemma_rdiv_exact(rdiv(x, 1000), 1000);
    assert(rdiv(x, 1000) * 1000 == 1000 * rdiv(x, 1000)) by (nonlinear_arith);
}

/// Linear interpolation from `a` to `b` in micro-units, with the parameter
/// `t` given in thousandths.
pub open spec fn lerp(a: int, b: int, t: int) -> int {
    a + rdiv((b - a) * t, 1000)
}

/// Executable rounded division for 64-bit operands.
pub fn rdiv_i64(n: i64, d: i64) -> (q: i64)
    requires
        0 < d,
    ensures
        q as int == rdiv(n as int, d as int),
        n >= 0 ==> 0 <= q <= n,
        n < 0 ==> n <= q <= 0,
{
    proof {
        lemma_rdiv_mag(n as int, d as int);
    }
    let du: u128 = d as u128;
    if n >= 0 {
        let nu: u128 = n as u128;
        let qu: u128 = (2 * nu + du) / (2 * du);
        qu as i64
    } else {
        let nu: u128 = (-(n as i128)) as u128;
        let qu: u128 = (2 * nu + du) / (2 * du);
        let qi: i128 = -(qu as i128);
        qi as i64
    }
}

/// Executable rounding of a micro-unit value to the nearest milli-unit,
/// returning the milli-unit count.
pub fn millis_i64(x: i64) -> (m: i64)
    ensures
        m as int == millis_of(x as int),
        -500 <= m as int * 1000 - x <= 500,
{
    proof {
        lemma_rdiv_error(x as int, 1000);
        assert(rdiv(x as int, 1000) * 1000 == millis_of(x as int) * 1000);
    }
    rdiv_i64(x, THOUSAND)
}

/// Executable linear interpolation; operands are bounded so that the scaled
/// difference stays within 64 bits.
pub fn lerp_i64(a: i64, b: i64, t: i64) -> (r: i64)
    requires
        0 <= t <= 1000,
        -2_000_000_000_000 <= a <= 2_000_000_000_000,
        -2_000_000_000_000 <= b <= 2_000_000_000_000,
    ensures
        r as int == lerp(a as int, b as int, t as int),
        a <= b ==> a <= r <= b,
        b <= a ==> b <= r <= a,
{
    let diff: i64 = b - a;
    let scaled: i64 = if diff >= 0 {
        proof {
            assert(diff * t <= diff * 1000) by (nonlinear_arith)
                requires 0 <= t <= 1000 && diff >= 0;
            assert(diff * t >= 0) by (nonlinear_arith)
                requires t >= 0 && diff >= 0;
        }
        diff * t
    } else {
        proof {
            assert(diff * t >= diff * 1000) by (nonlinear_arith)
                requires 0 <= t <= 1000 && diff < 0;
            assert(diff * t <= 0) by (nonlinear_arith)
                requires t >= 0 && diff < 0;
        }
        diff * t
    };
    let q: i64 = rdiv_i64(scaled, THOUSAND);
    proof {
        lemma_rdiv_error(scaled as int, 1000);
        if diff >= 0 {
            assert(scaled as int <= (diff as int) * 1000) by (nonlinear_arith)
                requires 0 <= t <= 1000 && diff >= 0 && scaled as int == (diff as int) * (t as int);
            assert(0 <= q <= diff as int);
        } else {
            assert(scaled as int >= (diff as int) * 1000) by (nonlinear_arith)
                requires 0 <= t <= 1000 && diff < 0 && scaled as int == (diff as int) * (t as int);
            assert(diff as int <= q <= 0);
        }
    }
    a + q
}

} // verus!
