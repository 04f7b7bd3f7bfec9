use vstd::prelude::*;

verus! {

/// The multiplier applied at the end of every scramble.
pub const MULTIPLIER: i64 = 0x2345F4914F6CFD1E;

/// Two to the power 53: below it every integer is a double.
pub const DOUBLE_EXACT: u128 = 0x20_0000_0000_0000;

/// Two to the power 63: the divisor that turns a state into a fraction.
pub const FRACTION_UNIT: u128 = 0x8000_0000_0000_0000;

/// A xorshift generator with 64 bits of state.
pub struct Shift64 {
    pub seed: i64,
}

/// One xorshift round followed by the multiplication, on 64 wrapping bits.
pub open spec fn scramble(x: i64) -> i64 {
    let a = x ^ (x >> 12u32);
    let b = a ^ (a << 25u32);
    let c = b ^ (b >> 27u32);
    c.wrapping_mul(MULTIPLIER)
}

/// The gap between neighbouring doubles around `m`: one below 2^53, and
/// doubled each time `m` doubles from there.
pub open spec fn double_gap(m: nat) -> nat
    decreases m,
{
    if m < DOUBLE_EXACT {
        1
    } else {
        2 * double_gap(m / 2)
    }
}

/// The double nearest to the integer `m`; of two equally near, the one whose
/// last bit is clear.
pub open spec fn nearest_double(m: nat) -> nat {
    let gap = double_gap(m);
    let low = m / gap;
    let rest = m % gap;
    if 2 * rest < gap || (2 * rest == gap && low % 2 == 0) {
        low * gap
    } else {
        (low + 1) * gap
    }
}

/// What double arithmetic makes of `|state / 2^63 * bound| - 1`, cut towards
/// zero. Every value involved is a multiple of 2^-63, so the computation is
/// stated on integers that count such parts: the state and the bound are taken
/// to the nearest double, then their product, then the difference to one.
pub open spec fn bounded_draw(state: int, bound: nat) -> int {
    let fraction = nearest_double(if state < 0 { (-state) as nat } else { state as nat });
    let product = nearest_double(fraction * nearest_double(bound));
    if product >= FRACTION_UNIT {
        (nearest_double((product - FRACTION_UNIT) as nat) / (FRACTION_UNIT as nat)) as int
    } else {
        -((nearest_double((FRACTION_UNIT - product) as nat) / (FRACTION_UNIT as nat)) as int)
    }
}

/// `x` held to the range from `low` to `high`.
pub open spec fn clamp(x: int, low: int, high: int) -> int {
    if x < low {
        low
    } else if x > high {
        high
    } else {
        x
    }
}

/// The signed draw below `|n|` that a state gives.
pub open spec fn signed_draw(state: i64, n: i32) -> i32 {
    clamp(
        bounded_draw(state as int, crate::math::magnitude(n as int) as nat),
        i32::MIN as int,
        i32::MAX as int,
    ) as i32
}

/// The unsigned draw below `n` that a state gives.
pub open spec fn size_draw(state: i64, n: usize) -> usize {
    clamp(bounded_draw(state as int, n as nat), 0, usize::MAX as int) as usize
}

/// The double nearest to `m`. It is at most one gap above `m`, and a gap is
/// at most the 2^52nd part of `m`.
fn round_to_double(m: u128) -> (d: u128)
    requires
        m <= 3 * 0x4000_0000_0000_0000_0000_0000_0000_0000u128,
    ensures
        d == nearest_double(m as nat),
        d <= m + m / 0x10_0000_0000_0000 + 1,
{
    let mut gap: u128 = 1;
    while m / gap >= DOUBLE_EXACT
        invariant
            gap >= 1,
            gap == 1 || gap * 0x10_0000_0000_0000 <= m,
            double_gap(m as nat) == gap * double_gap((m / gap) as nat),
            m <= 3 * 0x4000_0000_0000_0000_0000_0000_0000_0000u128,
        decreases m / gap,
    {
        proof {
            let g = gap as int;
            let x = m as int;
            vstd::arithmetic::div_mod::lemma_div_denominator(x, g, 2);
            vstd::arithmetic::div_mod::lemma_fundamental_div_mod(x, g);
            assert(g * (x / g) <= x);
            assert(g * 0x20_0000_0000_0000 <= g * (x / g)) by (nonlinear_arith)
                requires
                    x / g >= 0x20_0000_0000_0000,
                    g >= 1,
            ;
            assert(x / (g * 2) == (x / g) / 2);
            assert(gap * double_gap((m / gap) as nat) == (gap * 2) * double_gap(
                ((m / gap) / 2) as nat,
            )) by (nonlinear_arith)
                requires
                    double_gap((m / gap) as nat) == 2 * double_gap(((m / gap) / 2) as nat),
            ;
        }
        gap = gap * 2;
    }
    let low: u128 = m / gap;
    let rest: u128 = m % gap;
    proof {
        vstd::arithmetic::div_mod::lemma_fundamental_div_mod(m as int, gap as int);
        assert(low * gap <= m) by (nonlinear_arith)
            requires
                m == gap * low + rest,
                rest >= 0,
        ;
        assert((low + 1) * gap == low * gap + gap) by (nonlinear_arith);
        assert(gap <= m / 0x10_0000_0000_0000 + 1) by (nonlinear_arith)
            requires
                gap == 1 || gap * 0x10_0000_0000_0000 <= m,
                gap >= 1,
                m >= 0,
        ;
        assert(double_gap((m / gap) as nat) == 1);
        assert(double_gap(m as nat) == gap) by (nonlinear_arith)
            requires
                double_gap(m as nat) == gap * double_gap((m / gap) as nat),
                double_gap((m / gap) as nat) == 1,
        ;
    }
    if 2 * rest < gap || (2 * rest == gap && low % 2 == 0) {
        low * gap
    } else {
        (low + 1) * gap
    }
}

/// The bounded draw for a state and the magnitude of a bound.
fn draw(state: i64, bound: u64) -> (v: i128)
    ensures
        v == bounded_draw(state as int, bound as nat),
{
    let size: u128 = if state < 0 {
        (-(state as i128)) as u128
    } else {
        state as u128
    };
    let fraction = round_to_double(size);
    let factor = round_to_double(bound as u128);
    assert(fraction * factor <= 0x8000_0000_0000_0801 * 0x1_0000_0000_0000_1001)
        by (nonlinear_arith)
        requires
            fraction <= 0x8000_0000_0000_0801,
            factor <= 0x1_0000_0000_0000_1001,
    ;
    let product = round_to_double(fraction * factor);
    if product >= FRACTION_UNIT {
        (round_to_double(product - FRACTION_UNIT) / FRACTION_UNIT) as i128
    } else {
        -((round_to_double(FRACTION_UNIT - product) / FRACTION_UNIT) as i128)
    }
}

impl Shift64 {
    /// A generator whose first state is the scrambled successor of `seed`.
    pub fn new(seed: i64) -> (g: Shift64)
        ensures
            g.seed == scramble(seed.wrapping_add(1)),
    {
        let x = seed.wrapping_add(1);
        let a = x ^ (x >> 12u32);
        let b = a ^ (a << 25u32);
        let c = b ^ (b >> 27u32);
        Shift64 { seed: c.wrapping_mul(MULTIPLIER) }
    }

    /// Moves to the next state and returns it.
    pub fn shift(&mut self) -> (x: i64)
        ensures
            final(self).seed == scramble(old(self).seed),
            x == final(self).seed,
    {
        let x = self.seed;
        let a = x ^ (x >> 12u32);
        let b = a ^ (a << 25u32);
        let c = b ^ (b >> 27u32);
        self.seed = c.wrapping_mul(MULTIPLIER);
        self.seed
    }

    /// Moves to the next state and draws from it a number below `|n|`: what
    /// double arithmetic makes of the state as a fraction, times `n`, less
    /// one. The draw is `-1` where that product is next to nothing.
    pub fn i32(&mut self, n: i32) -> (v: i32)
        ensures
            final(self).seed == scramble(old(self).seed),
            v == signed_draw(final(self).seed, n),
            -1 <= v,
            n != 0 ==> v < crate::math::magnitude(n as int),
            n == 0 ==> v == -1,
    {
        let state = self.shift();
        proof {
            crate::draw_laws::lemma_signed_draw_range(state, n);
        }
        let bound: u64 = if n < 0 {
            (-(n as i64)) as u64
        } else {
            n as u64
        };
        let v = draw(state, bound);
        if v < i32::MIN as i128 {
            i32::MIN
        } else if v > i32::MAX as i128 {
            i32::MAX
        } else {
            v as i32
        }
    }

    /// Moves to the next state and draws from it a number below `n`, as `i32`
    /// does, but never negative. For an `n` beyond 2^53, which is no double,
    /// the draw may reach `n`.
    pub fn usize(&mut self, n: usize) -> (v: usize)
        ensures
            final(self).seed == scramble(old(self).seed),
            v == size_draw(final(self).seed, n),
            1 <= n <= DOUBLE_EXACT ==> v < n,
            n <= 1 ==> v == 0,
    {
        let state = self.shift();
        proof {
            if n <= DOUBLE_EXACT {
                crate::draw_laws::lemma_size_draw_range(state, n);
            }
        }
        let v = draw(state, n as u64);
        if v < 0 {
            0
        } else if v > usize::MAX as i128 {
            usize::MAX
        } else {
            v as usize
        }
    }
}

} // verus!
