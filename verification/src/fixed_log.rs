//! Fixed-point base-2 logarithm over 16-bit operands.
//!
//! Costs are measured in 1/256-bit units: `log2_fix(x)` approximates
//! `log2(x) * 256` for `1 <= x <= 65535` by combining the position of the
//! most significant bit with a linear interpolation inside the octave.

use vstd::arithmetic::div_mod::{
    lemma_div_is_ordered, lemma_div_multiples_vanish, lemma_multiply_divide_lt,
};
use vstd::arithmetic::power2::{
    lemma2_to64, lemma_pow2_pos, lemma_pow2_strictly_increases, lemma_pow2_unfold, pow2,
};
use vstd::prelude::*;

verus! {

/// Position of the most significant set bit: `spec_msb(x) == n` iff
/// `pow2(n) <= x < pow2(n + 1)` (and 0 for `x == 0`).
pub open spec fn spec_msb(x: nat) -> nat
    decreases x,
{
    if x < 2 {
        0
    } else {
        1 + spec_msb(x / 2)
    }
}

/// `log2(x) * 256`, approximated: the integer part is the most significant
/// bit position, the fractional part interpolates linearly inside the octave.
pub open spec fn spec_log2_fix(x: nat) -> int {
    spec_msb(x) * 256 + ((x * 256) as int) / (pow2(spec_msb(x)) as int) - 256
}

pub proof fn lemma_msb_bounds(x: nat)
    requires
        x >= 1,
    ensures
        pow2(spec_msb(x)) <= x < pow2(spec_msb(x) + 1),
    decreases x,
{
    if x < 2 {
        lemma2_to64();
    } else {
        lemma_msb_bounds(x / 2);
        let m = spec_msb(x / 2);
        lemma_pow2_unfold(m + 1);
        lemma_pow2_unfold(m + 2);
        assert(pow2(m) <= x / 2 < pow2(m + 1));
        assert(spec_msb(x) == m + 1);
        assert(x >= 2 * (x / 2) >= 2 * pow2(m));
        assert(x <= 2 * (x / 2) + 1 < 2 * pow2(m + 1));
    }
}

pub proof fn lemma_msb_unique(x: nat, n: nat)
    requires
        x >= 1,
        pow2(n) <= x < pow2(n + 1),
    ensures
        spec_msb(x) == n,
{
    let m = spec_msb(x);
    lemma_msb_bounds(x);
    if m < n {
        if m + 1 < n {
            lemma_pow2_strictly_increases(m + 1, n);
        }
        assert(pow2(m + 1) <= pow2(n));
    } else if n < m {
        if n + 1 < m {
            lemma_pow2_strictly_increases(n + 1, m);
        }
        assert(pow2(n + 1) <= pow2(m));
    }
}

pub proof fn lemma_msb_monotone(x: nat, y: nat)
    requires
        x <= y,
    ensures
        spec_msb(x) <= spec_msb(y),
    decreases y,
{
    if x < 2 {
    } else {
        lemma_msb_monotone(x / 2, y / 2);
    }
}

/// The fixed-point logarithm of any 16-bit value lies in `[0, 4095]`.
pub proof fn lemma_log2_fix_range(x: nat)
    requires
        1 <= x <= 65535,
    ensures
        0 <= spec_log2_fix(x) <= 4095,
        x == 1 ==> spec_log2_fix(x) == 0,
{
    let n = spec_msb(x);
    let p = pow2(n) as int;
    lemma_msb_bounds(x);
    lemma_pow2_pos(n);
    lemma_pow2_unfold(n + 1);
    assert(p >= 1);
    // x >= pow2(n), hence the interpolated fraction is at least 256.
    lemma_div_multiples_vanish(256, p);
    assert((p * 256) / p == 256);
    lemma_div_is_ordered(p * 256, x as int * 256, p);
    assert((x as int * 256) / p >= 256);
    // x < pow2(n + 1) == 2 * pow2(n), hence the fraction is below 512.
    assert(x as int * 256 < p * 512);
    lemma_multiply_divide_lt(x as int * 256, p, 512);
    assert((x as int * 256) / p < 512);
    // n <= 15 because x <= 65535 < pow2(16).
    if n >= 16 {
        if n > 16 {
            lemma_pow2_strictly_increases(16, n);
        }
        lemma2_to64();
        assert(false);
    }
    if x == 1 {
        assert(spec_msb(1) == 0);
        lemma2_to64();
    }
}

/// Monotonicity: a larger operand never has a smaller fixed-point logarithm.
pub proof fn lemma_log2_fix_monotone(x: nat, y: nat)
    requires
        1 <= x <= y,
        y <= 65535,
    ensures
        spec_log2_fix(x) <= spec_log2_fix(y),
{
    let nx = spec_msb(x);
    let ny = spec_msb(y);
    lemma_msb_monotone(x, y);
    lemma_log2_fix_range(x);
    lemma_log2_fix_range(y);
    if nx == ny {
        let p = pow2(nx) as int;
        lemma_msb_bounds(x);
        lemma_pow2_pos(nx);
        assert(p >= 1);
        lemma_div_is_ordered(x as int * 256, y as int * 256, p);
    } else {
        // nx < ny: the whole octave of x ends below the octave of y.
        let px = pow2(nx) as int;
        lemma_msb_bounds(x);
        lemma_pow2_pos(nx);
        lemma_pow2_unfold(nx + 1);
        assert(x as int * 256 < px * 512);
        lemma_multiply_divide_lt(x as int * 256, px, 512);
        assert(spec_log2_fix(x) < nx * 256 + 512 - 256);
        let py = pow2(ny) as int;
        lemma_msb_bounds(y);
        lemma_pow2_pos(ny);
        assert(py >= 1);
        lemma_div_multiples_vanish(256, py);
        lemma_div_is_ordered(py * 256, y as int * 256, py);
        assert(spec_log2_fix(y) >= ny * 256);
        assert(nx * 256 + 256 <= ny * 256);
    }
}

/// Fixed-point `log2(x) * 256` for `x >= 1`.
pub fn log2_fix(x: u16) -> (r: u32)
    requires
        x >= 1,
    ensures
        r as int == spec_log2_fix(x as nat),
        r <= 4095,
{
    let mut n: u32 = 0;
    let mut t: u32 = x as u32;
    let mut p: u32 = 1;
    proof {
        lemma2_to64();
    }
    while t >= 2
        invariant
            1 <= t,
            1 <= p,
            n <= 16,
            p == pow2(n as nat),
            t as nat * p as nat <= x as nat,
            (x as nat) < (t + 1) as nat * p as nat,
            x >= 1,
        decreases t,
    {
        proof {
            lemma_pow2_unfold(n as nat + 1);
            assert(t / 2 >= 1);
            assert((t / 2) as nat * (2 * p) as nat <= t as nat * p as nat) by (nonlinear_arith)
                requires t >= 2, p >= 1;
            assert((x as nat) < ((t / 2 + 1) * (2 * p)) as nat) by (nonlinear_arith)
                requires (x as nat) < (t + 1) as nat * p as nat, t >= 2, p >= 1;
            assert(p <= x) by (nonlinear_arith)
                requires t as nat * p as nat <= x as nat, t >= 1;
            assert(p <= 65535);
            assert(n < 16) by {
                if n >= 16 {
                    if n > 16 {
                        lemma_pow2_strictly_increases(16, n as nat);
                    }
                    lemma2_to64();
                }
            }
        }
        t = t / 2;
        n = n + 1;
        p = p * 2;
    }
    proof {
        assert(t == 1);
        assert(p <= x) by (nonlinear_arith)
            requires t as nat * p as nat <= x as nat, t >= 1;
        assert((x as nat) < 2 * p as nat);
        lemma_pow2_unfold(n as nat + 1);
        lemma_msb_unique(x as nat, n as nat);
        lemma_log2_fix_range(x as nat);
        // The exec quotient matches the spec quotient exactly.
        lemma_div_multiples_vanish(256, p as int);
        lemma_div_is_ordered(p as int * 256, x as int * 256, p as int);
        assert(x as int * 256 < p as int * 512);
        lemma_multiply_divide_lt(x as int * 256, p as int, 512);
        assert(n <= 15) by {
            if n >= 16 {
                if n > 16 {
                    lemma_pow2_strictly_increases(16, n as nat);
                }
                lemma2_to64();
            }
        }
    }
    let q: u32 = (x as u32 * 256) / p;
    n * 256 + q - 256
}

} // verus!
