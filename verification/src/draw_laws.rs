use crate::rng::{bounded_draw, double_gap, nearest_double, signed_draw, size_draw};
use vstd::arithmetic::power2::{lemma2_to64_rest, lemma_pow2_unfold, pow2};
use vstd::prelude::*;

verus! {

/// Holds where the integer `d` is a double: a multiple of the gap at its own
/// size.
pub open spec fn is_double(d: nat) -> bool {
    d % double_gap(d) == 0
}

/// A gap is at least one.
proof fn lemma_gap_positive(m: nat)
    ensures
        double_gap(m) >= 1,
    decreases m,
{
    if m >= 0x20_0000_0000_0000 {
        lemma_gap_positive(m / 2);
    }
}

/// The gap at a larger number is a multiple of the gap at a smaller one.
proof fn lemma_gap_ratio(m: nat, d: nat) -> (k: nat)
    requires
        m <= d,
    ensures
        k >= 1,
        double_gap(d) == k * double_gap(m),
    decreases m,
{
    if m < 0x20_0000_0000_0000 {
        lemma_gap_positive(d);
        let k = double_gap(d);
        assert(k == k * double_gap(m)) by (nonlinear_arith)
            requires
                double_gap(m) == 1,
        ;
        k
    } else {
        let k = lemma_gap_ratio(m / 2, d / 2);
        let half = double_gap(m / 2);
        assert(double_gap(m) == 2 * half);
        assert(double_gap(d) == 2 * double_gap(d / 2));
        assert(2 * (k * half) == k * (2 * half)) by (nonlinear_arith);
        k
    }
}

/// Rounding to the nearest double does not pass a double.
pub proof fn lemma_nearest_double_below(m: nat, d: nat)
    requires
        m <= d,
        is_double(d),
    ensures
        nearest_double(m) <= d,
{
    let g = double_gap(m);
    let wide = double_gap(d);
    lemma_gap_positive(m);
    lemma_gap_positive(d);
    let k = lemma_gap_ratio(m, d);
    let j = d / wide;
    let low = m / g;
    let rest = m % g;
    vstd::arithmetic::div_mod::lemma_fundamental_div_mod(d as int, wide as int);
    vstd::arithmetic::div_mod::lemma_fundamental_div_mod(m as int, g as int);
    let t = j * k;
    assert(d == t * g) by (nonlinear_arith)
        requires
            d == wide * j,
            wide == k * g,
            t == j * k,
    ;
    assert(m == g * low + rest);
    if nearest_double(m) != low * g {
        assert(rest > 0);
        assert(t > low) by (nonlinear_arith)
            requires
                t * g >= g * low + rest,
                rest > 0,
                g >= 1,
        ;
        assert(t * g >= (low + 1) * g) by (nonlinear_arith)
            requires
                t >= low + 1,
                g >= 1,
        ;
    } else {
        assert(low * g <= m) by (nonlinear_arith)
            requires
                m == g * low + rest,
                rest >= 0,
        ;
    }
}

/// A double is its own nearest double.
pub proof fn lemma_double_is_fixed(d: nat)
    requires
        is_double(d),
    ensures
        nearest_double(d) == d,
{
    let g = double_gap(d);
    lemma_gap_positive(d);
    vstd::arithmetic::div_mod::lemma_fundamental_div_mod(d as int, g as int);
    assert((d / g) * g == g * (d / g)) by (nonlinear_arith);
}

/// Twice a double is a double.
proof fn lemma_twice_is_double(d: nat)
    requires
        is_double(d),
    ensures
        is_double(2 * d),
{
    lemma_gap_positive(d);
    if 2 * d >= 0x20_0000_0000_0000 {
        let g = double_gap(d);
        assert((2 * d) / 2 == d);
        assert(double_gap(2 * d) == 2 * g);
        vstd::arithmetic::div_mod::lemma_fundamental_div_mod(d as int, g as int);
        let j = d / g;
        assert(2 * d == (2 * g) * j) by (nonlinear_arith)
            requires
                d == g * j,
        ;
        vstd::arithmetic::div_mod::lemma_mod_multiples_basic(j as int, (2 * g) as int);
        assert(j * (2 * g) == (2 * g) * j) by (nonlinear_arith);
    }
}

/// A number of at most 53 bits, times a power of two, is a double.
pub proof fn lemma_scaled_is_double(n: nat, k: nat)
    requires
        n <= 0x20_0000_0000_0000,
    ensures
        is_double(n * pow2(k)),
    decreases k,
{
    if k == 0 {
        assert(pow2(0) == 1) by {
            vstd::arithmetic::power2::lemma2_to64();
        }
        assert(n * 1 == n);
        if n == 0x20_0000_0000_0000 {
            assert(double_gap(n) == 2 * double_gap(n / 2));
            assert(double_gap(n / 2) == 1);
        }
    } else {
        lemma_scaled_is_double(n, (k - 1) as nat);
        lemma_pow2_unfold(k);
        assert(n * pow2(k) == 2 * (n * pow2((k - 1) as nat))) by (nonlinear_arith)
            requires
                pow2(k) == 2 * pow2((k - 1) as nat),
        ;
        lemma_twice_is_double(n * pow2((k - 1) as nat));
    }
}

/// A bounded draw for a bound of at most 53 bits is below the bound, and
/// below the bound less one where the bound is not zero; it is never under
/// minus one.
pub proof fn lemma_bounded_draw_range(state: int, bound: nat)
    requires
        i64::MIN <= state <= i64::MAX,
        bound <= 0x20_0000_0000_0000,
    ensures
        -1 <= bounded_draw(state, bound),
        bound >= 1 ==> bounded_draw(state, bound) <= bound - 1,
        bound == 0 ==> bounded_draw(state, bound) == -1,
{
    let unit: nat = 0x8000_0000_0000_0000;
    lemma2_to64_rest();
    let size = if state < 0 {
        (-state) as nat
    } else {
        state as nat
    };
    lemma_scaled_is_double(1, 63);
    assert(1 * pow2(63) == unit);
    lemma_nearest_double_below(size, unit);
    let fraction = nearest_double(size);
    lemma_scaled_is_double(bound, 0);
    assert(pow2(0) == 1) by {
        vstd::arithmetic::power2::lemma2_to64();
    }
    assert(bound * 1 == bound);
    lemma_double_is_fixed(bound);
    let exact = fraction * bound;
    lemma_scaled_is_double(bound, 63);
    assert(bound * pow2(63) == bound * unit);
    assert(exact <= bound * unit) by (nonlinear_arith)
        requires
            exact == fraction * bound,
            fraction <= unit,
    ;
    lemma_nearest_double_below(exact, bound * unit);
    let product = nearest_double(exact);
    if product >= unit {
        assert(bound >= 1) by (nonlinear_arith)
            requires
                product <= bound * unit,
                product >= unit,
                unit > 0,
        ;
        let top = (bound - 1) as nat;
        lemma_scaled_is_double(top, 63);
        assert(top * pow2(63) == top * unit);
        assert(bound * unit - unit == top * unit) by (nonlinear_arith)
            requires
                top == bound - 1,
        ;
        lemma_nearest_double_below((product - unit) as nat, top * unit);
        let rounded = nearest_double((product - unit) as nat);
        assert(rounded / unit <= top) by (nonlinear_arith)
            requires
                rounded <= top * unit,
                unit > 0,
        ;
    } else {
        lemma_nearest_double_below((unit - product) as nat, unit);
        if bound == 0 {
            assert(exact == 0) by (nonlinear_arith)
                requires
                    exact == fraction * bound,
                    bound == 0,
            ;
            assert(product == 0);
            lemma_double_is_fixed(unit);
        }
    }
}

/// A signed draw for `n` is at least minus one and below the magnitude of
/// `n`; for zero it is minus one.
pub proof fn lemma_signed_draw_range(state: i64, n: i32)
    ensures
        -1 <= signed_draw(state, n),
        n != 0 ==> signed_draw(state, n) < crate::math::magnitude(n as int),
        n == 0 ==> signed_draw(state, n) == -1,
{
    lemma_bounded_draw_range(state as int, crate::math::magnitude(n as int) as nat);
}

/// A draw of a size for `n` of at most 53 bits is below `n`, and zero where
/// `n` is at most one.
pub proof fn lemma_size_draw_range(state: i64, n: usize)
    requires
        n <= 0x20_0000_0000_0000,
    ensures
        n >= 1 ==> size_draw(state, n) < n,
        n <= 1 ==> size_draw(state, n) == 0,
{
    lemma_bounded_draw_range(state as int, n as nat);
}

} // verus!
