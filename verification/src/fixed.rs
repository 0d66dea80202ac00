//! Fixed-point scalar arithmetic.
//!
//! Every scalar quantity in this crate (a reward, a value estimate, a rate
//! such as a discount factor) is an `i64` counting millionths: the real
//! number one is represented by [`SCALE`]. Value estimates are kept within
//! [`VALUE_BOUND`]; the operations here clamp to that range, so no
//! computation can overflow however long an algorithm iterates.

use vstd::prelude::*;

verus! {

/// Number of fixed-point units that represent the real number one.
pub const SCALE: i64 = 1_000_000;

/// Largest magnitude a stored value estimate may have.
pub const VALUE_BOUND: i64 = 1_000_000_000_000_000;

/// Multiplies a value by a rate in `[0, SCALE]`, truncating toward zero.
pub open spec fn spec_mul_frac(v: int, f: int) -> int {
    if v >= 0 {
        (v * f) / (SCALE as int)
    } else {
        -((-v * f) / (SCALE as int))
    }
}

/// Clamps a scalar into `[-VALUE_BOUND, VALUE_BOUND]`.
pub open spec fn spec_clamp(x: int) -> int {
    if x > VALUE_BOUND as int {
        VALUE_BOUND as int
    } else if x < -(VALUE_BOUND as int) {
        -(VALUE_BOUND as int)
    } else {
        x
    }
}

/// One Bellman backup: `reward + discount * next_value`, clamped.
pub open spec fn spec_backup(reward: int, discount: int, next_value: int) -> int {
    spec_clamp(reward + spec_mul_frac(next_value, discount))
}

/// Absolute value of an `int`.
pub open spec fn spec_abs(x: int) -> int {
    if x >= 0 {
        x
    } else {
        -x
    }
}

/// One temporal-difference update: `q + alpha * (target - q)`, clamped.
pub open spec fn spec_td_update(q: int, target: int, alpha: int) -> int {
    spec_clamp(q + spec_mul_frac(target - q, alpha))
}

/// Multiplies `v` by the rate `f`, truncating toward zero.
pub fn mul_frac(v: i64, f: i64) -> (r: i64)
    requires
        0 <= f <= SCALE,
        -4 * (VALUE_BOUND as int) <= v as int <= 4 * (VALUE_BOUND as int),
    ensures
        r as int == spec_mul_frac(v as int, f as int),
        spec_abs(r as int) <= spec_abs(v as int),
{
    let mag: i64 = if v < 0 {
        -v
    } else {
        v
    };
    proof {
        assert((mag as int) * (f as int) <= 4_000_000_000_000_000 * 1_000_000) by (nonlinear_arith)
            requires
                0 <= mag as int <= 4_000_000_000_000_000,
                0 <= f as int <= 1_000_000,
        ;
    }
    let prod: u128 = (mag as u128) * (f as u128);
    let quot: u128 = prod / (SCALE as u128);
    proof {
        lemma_mul_frac_bound(mag as int, f as int);
    }
    let q: i64 = quot as i64;
    if v < 0 {
        -q
    } else {
        q
    }
}

/// Dividing `m * f` by `SCALE` with `f <= SCALE` cannot exceed `m`.
proof fn lemma_mul_frac_bound(m: int, f: int)
    requires
        0 <= m,
        0 <= f <= SCALE,
    ensures
        0 <= (m * f) / (SCALE as int) <= m,
{
    assert(m * f <= m * (SCALE as int)) by (nonlinear_arith)
        requires
            0 <= m,
            f <= SCALE,
    ;
    assert(0 <= m * f) by (nonlinear_arith)
        requires
            0 <= m,
            0 <= f,
    ;
    assert((m * f) / (SCALE as int) <= (m * (SCALE as int)) / (SCALE as int)) by {
        vstd::arithmetic::div_mod::lemma_div_is_ordered(m * f, m * (SCALE as int), SCALE as int);
    };
    assert((m * (SCALE as int)) / (SCALE as int) == m) by {
        vstd::arithmetic::div_mod::lemma_div_multiples_vanish(m, SCALE as int);
    };
    assert(0 <= (m * f) / (SCALE as int)) by {
        vstd::arithmetic::div_mod::lemma_div_pos_is_pos(m * f, SCALE as int);
    };
}

/// Clamps a scalar into `[-VALUE_BOUND, VALUE_BOUND]`.
pub fn clamp_value(x: i64) -> (r: i64)
    ensures
        r as int == spec_clamp(x as int),
{
    if x > VALUE_BOUND {
        VALUE_BOUND
    } else if x < -VALUE_BOUND {
        -VALUE_BOUND
    } else {
        x
    }
}

/// One Bellman backup, executed: `reward + discount * next_value`, clamped.
pub fn backup(reward: i64, discount: i64, next_value: i64) -> (r: i64)
    requires
        0 <= discount <= SCALE,
        spec_abs(reward as int) <= VALUE_BOUND as int,
        spec_abs(next_value as int) <= VALUE_BOUND as int,
    ensures
        r as int == spec_backup(reward as int, discount as int, next_value as int),
        spec_abs(r as int) <= VALUE_BOUND as int,
{
    let scaled: i64 = mul_frac(next_value, discount);
    clamp_value(reward + scaled)
}

/// One temporal-difference update, executed: `q + alpha * (target - q)`, clamped.
pub fn td_update(q: i64, target: i64, alpha: i64) -> (r: i64)
    requires
        0 <= alpha <= SCALE,
        spec_abs(q as int) <= VALUE_BOUND as int,
        spec_abs(target as int) <= VALUE_BOUND as int,
    ensures
        r as int == spec_td_update(q as int, target as int, alpha as int),
        spec_abs(r as int) <= VALUE_BOUND as int,
{
    let diff: i64 = target - q;
    let step: i64 = mul_frac(diff, alpha);
    clamp_value(q + step)
}

/// `|a - b|` on scalars within the value bound.
pub fn abs_diff(a: i64, b: i64) -> (r: i64)
    requires
        spec_abs(a as int) <= VALUE_BOUND as int,
        spec_abs(b as int) <= VALUE_BOUND as int,
    ensures
        r as int == spec_abs(a as int - b as int),
{
    if a >= b {
        a - b
    } else {
        b - a
    }
}

} // verus!
