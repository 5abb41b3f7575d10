//! Fixed-point arithmetic in thousandths.
//!
//! Every continuous quantity in this crate is stored as an `i64` counting
//! thousandths of the unit it measures: positions and velocities in
//! milli-pixels, times in milliseconds, angles in millidegrees, opacity in
//! milli-steps of the 0..=255 scale.

use vstd::prelude::*;

verus! {

/// Fixed-point steps per whole unit.
pub const MILLI: i64 = 1000;

/// Truncating division of a fixed-point product by 1000: the quotient is
/// rounded toward zero, as a hardware cast of a real quantity would round.
pub open spec fn div_milli(a: int) -> int {
    if a >= 0 {
        a / 1000
    } else {
        -((-a) / 1000)
    }
}

/// What a rate `v` (thousandths per second) accumulates over `dt`
/// milliseconds, in thousandths: `v * dt / 1000`, truncated toward zero.
pub open spec fn scaled(v: int, dt: int) -> int {
    div_milli(v * dt)
}

/// A value that is a whole number of thousandths divides by 1000 without
/// truncation, so the truncating and the Euclidean reading agree on it.
pub proof fn lemma_div_milli_exact(a: int)
    requires
        a % 1000 == 0,
    ensures
        div_milli(a) == a / 1000,
{
    vstd::arithmetic::div_mod::lemma_fundamental_div_mod(a, 1000);
    let q = a / 1000;
    if a < 0 {
        assert(-a == 1000 * (-q));
        vstd::arithmetic::div_mod::lemma_div_multiples_vanish(-q, 1000);
    }
}

/// Division by 1000 distributes over a sum of whole-thousandth values: what
/// accumulates frame by frame equals what one combined frame accumulates.
pub proof fn lemma_div_milli_add_exact(a: int, b: int)
    requires
        a % 1000 == 0,
        b % 1000 == 0,
    ensures
        (a + b) % 1000 == 0,
        div_milli(a + b) == div_milli(a) + div_milli(b),
{
    vstd::arithmetic::div_mod::lemma_fundamental_div_mod(a, 1000);
    vstd::arithmetic::div_mod::lemma_fundamental_div_mod(b, 1000);
    let qa = a / 1000;
    let qb = b / 1000;
    assert(a + b == (qa + qb) * 1000 + 0) by {
        assert(1000 * qa + 1000 * qb == (qa + qb) * 1000) by (nonlinear_arith);
    }
    vstd::arithmetic::div_mod::lemma_fundamental_div_mod_converse(a + b, 1000, qa + qb, 0);
    lemma_div_milli_exact(a);
    lemma_div_milli_exact(b);
    lemma_div_milli_exact(a + b);
}

/// `v * dt / 1000` truncated toward zero, computed exactly in `i128`.
/// The product of two `i64` values is at most 2^126 in magnitude, so the
/// result is comfortably inside `i128`.
pub(crate) fn scale_milli(v: i64, dt: i64) -> (r: i128)
    ensures
        r == scaled(v as int, dt as int),
        -0x40000000000000000000000000000000 <= r <= 0x40000000000000000000000000000000,
{
    proof {
        let vi = v as int;
        let di = dt as int;
        assert(-0x40000000000000000000000000000000 <= vi * di
            <= 0x40000000000000000000000000000000) by (nonlinear_arith)
            requires
                -0x8000000000000000 <= vi <= 0x7fffffffffffffff,
                -0x8000000000000000 <= di <= 0x7fffffffffffffff;
    }
    let prod: i128 = (v as i128) * (dt as i128);
    if prod >= 0 {
        proof {
            vstd::arithmetic::div_mod::lemma_div_pos_is_pos(prod as int, 1000);
            vstd::arithmetic::div_mod::lemma_div_nonincreasing(prod as int, 1000);
        }
        ((prod as u128) / 1000) as i128
    } else {
        proof {
            vstd::arithmetic::div_mod::lemma_div_pos_is_pos(-(prod as int), 1000);
            vstd::arithmetic::div_mod::lemma_div_nonincreasing(-(prod as int), 1000);
        }
        let q: u128 = ((-prod) as u128) / 1000;
        -(q as i128)
    }
}

/// The whole part of a fixed-point value: `a / 1000` truncated toward zero.
pub(crate) fn div_milli_exec(a: i64) -> (r: i64)
    ensures
        r == div_milli(a as int),
{
    if a >= 0 {
        proof {
            vstd::arithmetic::div_mod::lemma_div_pos_is_pos(a as int, 1000);
            vstd::arithmetic::div_mod::lemma_div_nonincreasing(a as int, 1000);
        }
        ((a as u64) / 1000) as i64
    } else {
        proof {
            vstd::arithmetic::div_mod::lemma_div_pos_is_pos(-(a as int), 1000);
            vstd::arithmetic::div_mod::lemma_div_nonincreasing(-(a as int), 1000);
        }
        let m: u128 = ((-(a as i128)) as u128) / 1000;
        -(m as i64)
    }
}

/// Euclidean remainder `a % m` for positive `m`: the unique value in
/// `[0, m)` that differs from `a` by a multiple of `m`.
pub(crate) fn rem_euclid_milli(a: i128, m: i64) -> (r: i64)
    requires
        1 <= m,
        a > i128::MIN,
    ensures
        r == (a as int) % (m as int),
        0 <= r < m,
{
    if a >= 0 {
        ((a as u128) % (m as u128)) as i64
    } else {
        let mm: u128 = ((-a) as u128) % (m as u128);
        proof {
            let mi = m as int;
            let b = -(a as int);
            vstd::arithmetic::div_mod::lemma_fundamental_div_mod(b, mi);
            let q = b / mi;
            let rr = b % mi;
            assert(a as int == (-q) * mi + (-rr)) by (nonlinear_arith)
                requires
                    b == mi * q + rr,
                    b == -(a as int);
            if rr == 0 {
                vstd::arithmetic::div_mod::lemma_fundamental_div_mod_converse_mod(
                    a as int, mi, -q, 0);
            } else {
                assert(a as int == (-q - 1) * mi + (mi - rr)) by (nonlinear_arith)
                    requires
                        a as int == (-q) * mi + (-rr);
                vstd::arithmetic::div_mod::lemma_fundamental_div_mod_converse_mod(
                    a as int, mi, -q - 1, mi - rr);
            }
        }
        if mm == 0 {
            0
        } else {
            ((m as u128) - mm) as i64
        }
    }
}

} // verus!
