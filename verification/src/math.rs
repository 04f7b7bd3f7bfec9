use vstd::prelude::*;

verus! {

/// Step to one of the six cells that share two neighbours with a cell,
/// or no step at all.
#[derive(Clone, Copy, Debug, PartialEq, Eq, Structural)]
pub enum Diagonal {
    QNeg,
    QPos,
    RNeg,
    RPos,
    SNeg,
    SPos,
    Zero,
}

/// Step to one of the six cells that touch a cell, or no step at all.
#[derive(Clone, Copy, Debug, PartialEq, Eq, Structural)]
pub enum Direction {
    QNeg,
    QPos,
    RNeg,
    RPos,
    SNeg,
    SPos,
    Zero,
}

/// The two ways to lay hexagons on a plane: a flat side up, or a corner up.
#[derive(Clone, Copy, Debug, PartialEq, Eq, Structural)]
pub enum Style {
    Flat,
    Pointy,
}

/// A hex cell, addressed by two integers.
#[derive(Clone, Copy, Debug, Hash, PartialEq, Eq, Structural)]
pub struct Axial {
    pub q: i32,
    pub r: i32,
}

/// A hex vector with three components. Those that stand for a difference of
/// two cells sum to zero.
#[derive(Clone, Copy, Debug, Hash, PartialEq, Eq, Structural)]
pub struct Cuboid {
    pub q: i32,
    pub r: i32,
    pub s: i32,
}

/// A position in the integer grid on which scattered points are generated.
#[derive(Clone, Copy, Debug, Hash, PartialEq, Eq, Structural)]
pub struct Point {
    pub x: i32,
    pub y: i32,
}

/// The 32-bit two's complement value that is congruent to `x`: `x` itself
/// where it fits, else `x` moved by a multiple of 2^32.
pub open spec fn wrap(x: int) -> i32 {
    if i32::MIN <= x <= i32::MAX {
        x as i32
    } else if i32::MAX < x <= i32::MAX + 0x1_0000_0000 {
        (x - 0x1_0000_0000) as i32
    } else if i32::MIN - 0x1_0000_0000 <= x < i32::MIN {
        (x + 0x1_0000_0000) as i32
    } else {
        x as i32
    }
}

/// The vector with the given components.
pub open spec fn cube(q: int, r: int, s: int) -> Cuboid {
    Cuboid { q: q as i32, r: r as i32, s: s as i32 }
}

/// Absolute value on the integers.
pub open spec fn magnitude(x: int) -> int {
    if x < 0 {
        -x
    } else {
        x
    }
}

/// Number of steps between two cells, on the unbounded integers.
pub open spec fn hex_distance(a: Axial, b: Axial) -> int {
    let dq = a.q - b.q;
    let dr = a.r - b.r;
    (magnitude(dq) + magnitude(dr) + magnitude(dq + dr)) / 2
}

/// Half the sum of the three magnitudes of a vector, on the unbounded integers.
pub open spec fn hex_length(c: Cuboid) -> int {
    (magnitude(c.q as int) + magnitude(c.r as int) + magnitude(c.s as int)) / 2
}

/// Absolute value that wraps: the smallest integer is its own absolute value.
pub fn wrapping_abs(x: i32) -> (r: i32)
    ensures
        r == wrap(magnitude(x as int)),
{
    if x == i32::MIN {
        x
    } else if x < 0 {
        -x
    } else {
        x
    }
}

/// Floor of `x / 2`.
fn halve(x: i32) -> (r: i32)
    ensures
        r == x as int / 2,
{
    let r = x >> 1u32;
    assert(r as int == (x as int) / 2) by (bit_vector)
        requires
            r == x >> 1u32,
    ;
    r
}

impl Default for Style {
    fn default() -> (s: Style)
        ensures
            s == Style::Flat,
    {
        Style::Flat
    }
}

impl Default for Point {
    fn default() -> (p: Point)
        ensures
            p == (Point { x: 0, y: 0 }),
    {
        Point { x: 0, y: 0 }
    }
}

impl Diagonal {
    /// The vector of this step.
    pub open spec fn spec_delta(self) -> Cuboid {
        match self {
            Diagonal::QNeg => cube(-2, 1, 1),
            Diagonal::QPos => cube(2, -1, -1),
            Diagonal::RNeg => cube(1, -2, 1),
            Diagonal::RPos => cube(-1, 2, -1),
            Diagonal::SNeg => cube(1, 1, -2),
            Diagonal::SPos => cube(-1, -1, 2),
            Diagonal::Zero => cube(0, 0, 0),
        }
    }

    pub fn delta(&self) -> (c: Cuboid)
        ensures
            c == self.spec_delta(),
            c.is_zero_sum(),
            *self != Diagonal::Zero ==> hex_length(c) == 2,
            *self == Diagonal::Zero ==> hex_length(c) == 0,
    {
        match self {
            Diagonal::QNeg => Cuboid { q: -2, r: 1, s: 1 },
            Diagonal::QPos => Cuboid { q: 2, r: -1, s: -1 },
            Diagonal::RNeg => Cuboid { q: 1, r: -2, s: 1 },
            Diagonal::RPos => Cuboid { q: -1, r: 2, s: -1 },
            Diagonal::SNeg => Cuboid { q: 1, r: 1, s: -2 },
            Diagonal::SPos => Cuboid { q: -1, r: -1, s: 2 },
            Diagonal::Zero => Cuboid { q: 0, r: 0, s: 0 },
        }
    }
}

impl Direction {
    /// The vector of this step.
    pub open spec fn spec_delta(self) -> Cuboid {
        match self {
            Direction::QNeg => cube(-1, 0, 1),
            Direction::QPos => cube(1, 0, -1),
            Direction::RNeg => cube(1, -1, 0),
            Direction::RPos => cube(-1, 1, 0),
            Direction::SNeg => cube(0, 1, -1),
            Direction::SPos => cube(0, -1, 1),
            Direction::Zero => cube(0, 0, 0),
        }
    }

    pub fn delta(&self) -> (c: Cuboid)
        ensures
            c == self.spec_delta(),
            c.is_zero_sum(),
            *self != Direction::Zero ==> hex_length(c) == 1,
            *self == Direction::Zero ==> hex_length(c) == 0,
    {
        match self {
            Direction::QNeg => Cuboid { q: -1, r: 0, s: 1 },
            Direction::QPos => Cuboid { q: 1, r: 0, s: -1 },
            Direction::RNeg => Cuboid { q: 1, r: -1, s: 0 },
            Direction::RPos => Cuboid { q: -1, r: 1, s: 0 },
            Direction::SNeg => Cuboid { q: 0, r: 1, s: -1 },
            Direction::SPos => Cuboid { q: 0, r: -1, s: 1 },
            Direction::Zero => Cuboid { q: 0, r: 0, s: 0 },
        }
    }
}

impl Axial {
    /// The vector from `rh` to `self`, each component wrapped to 32 bits.
    pub open spec fn spec_delta(self, rh: Axial) -> Cuboid {
        let q = wrap(self.q - rh.q);
        let r = wrap(self.r - rh.r);
        Cuboid { q, r, s: wrap(wrap(-q) - r) }
    }

    /// The distance as 32-bit arithmetic computes it.
    pub open spec fn spec_distance(self, other: Axial) -> i32 {
        let dq = wrap(self.q - other.q);
        let dr = wrap(self.r - other.r);
        (wrap(
            wrap(magnitude(dq as int)) + wrap(magnitude(dr as int)) + wrap(
                magnitude(wrap(dr + dq) as int),
            ),
        ) as int / 2) as i32
    }

    /// The cell one step away in direction `d`, each coordinate wrapped to 32 bits.
    pub open spec fn spec_neighbor(self, d: Direction) -> Axial {
        Axial { q: wrap(self.q + d.spec_delta().q), r: wrap(self.r + d.spec_delta().r) }
    }

    /// Holds where the distance between the two cells fits in 32 bits at every
    /// step of its computation.
    pub open spec fn near(self, other: Axial) -> bool {
        let dq = self.q - other.q;
        let dr = self.r - other.r;
        magnitude(dq) + magnitude(dr) + magnitude(dq + dr) <= i32::MAX
    }

    pub fn delta(&self, rh: &Axial) -> (c: Cuboid)
        ensures
            c == self.spec_delta(*rh),
            self.near(*rh) ==> c.is_zero_sum() && c.q == self.q - rh.q && c.r == self.r - rh.r,
    {
        let q = self.q.wrapping_sub(rh.q);
        let r = self.r.wrapping_sub(rh.r);
        Cuboid { q, r, s: 0i32.wrapping_sub(q).wrapping_sub(r) }
    }

    pub fn distance(&self, other: &Axial) -> (d: i32)
        ensures
            d == self.spec_distance(*other),
            self.near(*other) ==> d == hex_distance(*self, *other),
    {
        let dq = self.q.wrapping_sub(other.q);
        let dr = self.r.wrapping_sub(other.r);
        halve(wrapping_abs(dq).wrapping_add(wrapping_abs(dr)).wrapping_add(wrapping_abs(dr.wrapping_add(dq))))
    }

    pub fn neighbor(&self, d: Direction) -> (n: Axial)
        ensures
            n == self.spec_neighbor(d),
            d != Direction::Zero && i32::MIN < self.q < i32::MAX && i32::MIN < self.r < i32::MAX
                ==> hex_distance(*self, n) == 1,
            d == Direction::Zero ==> n == *self,
    {
        let dir = d.delta();
        Axial { q: self.q.wrapping_add(dir.q), r: self.r.wrapping_add(dir.r) }
    }
}

impl Cuboid {
    /// Holds where the three components sum to zero.
    pub open spec fn is_zero_sum(self) -> bool {
        self.q + self.r + self.s == 0
    }

    /// The componentwise absolute value, wrapped to 32 bits.
    pub open spec fn spec_abs(self) -> Cuboid {
        Cuboid {
            q: wrap(magnitude(self.q as int)),
            r: wrap(magnitude(self.r as int)),
            s: wrap(magnitude(self.s as int)),
        }
    }

    /// The length as 32-bit arithmetic computes it.
    pub open spec fn spec_length(self) -> i32 {
        let a = self.spec_abs();
        (wrap(a.q + a.r + a.s) as int / 2) as i32
    }

    /// The direction of the component of largest magnitude: `q` wins a tie,
    /// then `r`; the sign of that component picks the side.
    pub open spec fn spec_direction(self) -> Direction {
        let a = self.spec_abs();
        if a.q >= a.r && a.q >= a.s {
            if self.q < 0 {
                Direction::QNeg
            } else {
                Direction::QPos
            }
        } else if a.r >= a.s {
            if self.r < 0 {
                Direction::RNeg
            } else {
                Direction::RPos
            }
        } else if self.s < 0 {
            Direction::SNeg
        } else {
            Direction::SPos
        }
    }

    pub fn abs(&self) -> (c: Cuboid)
        ensures
            c == self.spec_abs(),
            self.q > i32::MIN && self.r > i32::MIN && self.s > i32::MIN ==> c.q == magnitude(
                self.q as int,
            ) && c.r == magnitude(self.r as int) && c.s == magnitude(self.s as int),
    {
        Cuboid { q: wrapping_abs(self.q), r: wrapping_abs(self.r), s: wrapping_abs(self.s) }
    }

    pub fn length(&self) -> (n: i32)
        ensures
            n == self.spec_length(),
            magnitude(self.q as int) + magnitude(self.r as int) + magnitude(self.s as int)
                <= i32::MAX ==> n == hex_length(*self),
    {
        halve(wrapping_abs(self.q).wrapping_add(wrapping_abs(self.r)).wrapping_add(wrapping_abs(self.s)))
    }

    pub fn direction(&self) -> (d: Direction)
        ensures
            d == self.spec_direction(),
            d != Direction::Zero,
    {
        let abs = self.abs();
        if abs.q >= abs.r && abs.q >= abs.s {
            if self.q < 0 {
                return Direction::QNeg;
            }
            return Direction::QPos;
        }
        if abs.r >= abs.s {
            if self.r < 0 {
                return Direction::RNeg;
            }
            return Direction::RPos;
        }
        if self.s < 0 {
            return Direction::SNeg;
        }
        Direction::SPos
    }
}

/// Wrapped differences taken the other way round are the wrapped negation.
proof fn lemma_wrap_negated(x: i32, y: i32)
    ensures
        wrap(y - x) == wrap(-wrap(x - y)),
        wrap(magnitude(wrap(y - x) as int)) == wrap(magnitude(wrap(x - y) as int)),
{
}

/// The wrapped sum of two wrapped negations is the wrapped negation of the
/// wrapped sum.
proof fn lemma_wrap_sum_negated(x: i32, y: i32)
    ensures
        wrap(wrap(-x) + wrap(-y)) == wrap(-wrap(x + y)),
        wrap(magnitude(wrap(wrap(-x) + wrap(-y)) as int)) == wrap(magnitude(wrap(x + y) as int)),
{
}

/// The distance between two cells does not depend on their order.
pub proof fn lemma_distance_symmetric(a: Axial, b: Axial)
    ensures
        a.spec_distance(b) == b.spec_distance(a),
        hex_distance(a, b) == hex_distance(b, a),
{
    let dq = wrap(a.q - b.q);
    let dr = wrap(a.r - b.r);
    lemma_wrap_negated(a.q, b.q);
    lemma_wrap_negated(a.r, b.r);
    lemma_wrap_sum_negated(dr, dq);
}

/// The vector between two cells is as long as the cells are apart.
pub proof fn lemma_length_of_delta(a: Axial, b: Axial)
    ensures
        a.spec_delta(b).spec_length() == a.spec_distance(b),
        a.near(b) ==> hex_length(a.spec_delta(b)) == hex_distance(a, b),
{
    let q = wrap(a.q - b.q);
    let r = wrap(a.r - b.r);
    assert(wrap(wrap(-q) - r) == wrap(-wrap(r + q)));
    assert(wrap(magnitude(wrap(wrap(-q) - r) as int)) == wrap(magnitude(wrap(r + q) as int)));
}

/// A cell is at distance zero from itself.
pub proof fn lemma_distance_self(a: Axial)
    ensures
        a.spec_distance(a) == 0,
        hex_distance(a, a) == 0,
{
}

/// Two cells are at distance zero only if they are the same cell, and a
/// distance is never negative.
pub proof fn lemma_distance_zero(a: Axial, b: Axial)
    ensures
        hex_distance(a, b) >= 0,
        hex_distance(a, b) == 0 <==> a == b,
        a.near(b) ==> (a.spec_distance(b) == 0 <==> a == b),
{
}

/// Going through a third cell is never shorter than going straight.
pub proof fn lemma_distance_triangle(a: Axial, b: Axial, c: Axial)
    ensures
        hex_distance(a, c) <= hex_distance(a, b) + hex_distance(b, c),
{
}

} // verus!
