//! Fixed-point scalars and two-dimensional vectors.
//!
//! Every quantity of the simulation (lengths, speeds, seconds, radians) is an
//! `i64` that counts millionths of its unit. Stored quantities stay within
//! `LIMIT` of zero, which leaves room for every intermediate result.

use vstd::prelude::*;

verus! {

/// The raw value of 1.0.
pub const ONE: i64 = 1_000_000;

/// The largest magnitude a stored quantity may have: a million units.
pub const LIMIT: i64 = 1_000_000_000_000;

/// Half a turn, in radians.
pub const PI: i64 = 3_141_593;

/// A full turn, in radians.
pub const TAU: i64 = 6_283_185;

/// Whether `v` lies within the range of stored quantities.
pub open spec fn in_range(v: int) -> bool {
    -LIMIT <= v <= LIMIT
}

/// Whether `dt` is a time step the simulation accepts: not negative, and in range.
pub open spec fn valid_step(dt: int) -> bool {
    0 <= dt <= LIMIT
}

/// The quotient of `n` by `d`, rounded toward zero.
pub open spec fn div_trunc(n: int, d: int) -> int {
    if n >= 0 {
        n / d
    } else {
        -((-n) / d)
    }
}

/// The fixed-point product of `a` and `b`, rounded toward zero.
pub open spec fn fmul(a: int, b: int) -> int {
    div_trunc(a * b, ONE as int)
}

/// `v` held between `lo` and `hi`; `hi` where the two bounds cross.
pub open spec fn clamped(v: int, lo: int, hi: int) -> int {
    if v < lo {
        if lo < hi { lo } else { hi }
    } else if v > hi {
        hi
    } else {
        v
    }
}

/// The angle `a` brought into `[0, TAU)` by whole turns.
pub open spec fn turned(a: int) -> int {
    a % (TAU as int)
}

/// A point or a displacement in the plane.
#[derive(Clone, Copy, Debug, PartialEq, Eq, Structural)]
pub struct Vec2 {
    pub x: i64,
    pub y: i64,
}

impl Vec2 {
    /// Whether both components lie within the range of stored quantities.
    pub open spec fn in_range(self) -> bool {
        in_range(self.x as int) && in_range(self.y as int)
    }

    /// Whether both components are at most one in magnitude, as those of a
    /// direction are.
    pub open spec fn is_direction(self) -> bool {
        -ONE <= self.x <= ONE && -ONE <= self.y <= ONE
    }

    /// The vector stretched by the fixed-point factor `k`.
    pub open spec fn scaled(self, k: int) -> Vec2 {
        Vec2 { x: fmul(self.x as int, k) as i64, y: fmul(self.y as int, k) as i64 }
    }

    /// The sum of two vectors.
    pub open spec fn plus(self, other: Vec2) -> Vec2 {
        Vec2 { x: (self.x + other.x) as i64, y: (self.y + other.y) as i64 }
    }

    /// The vector turned about: both components negated.
    pub open spec fn negated(self) -> Vec2 {
        Vec2 { x: (-self.x) as i64, y: (-self.y) as i64 }
    }

    /// The square of the distance between two points, in raw units squared.
    pub open spec fn dist_sq(self, other: Vec2) -> int {
        (self.x - other.x) * (self.x - other.x) + (self.y - other.y) * (self.y - other.y)
    }

    /// Whether the distance between two points is less than `r`.
    pub open spec fn closer_than(self, other: Vec2, r: int) -> bool {
        r > 0 && self.dist_sq(other) < r * r
    }

    /// Whether the distance between two points is greater than `r`.
    pub open spec fn farther_than(self, other: Vec2, r: int) -> bool {
        r < 0 || self.dist_sq(other) > r * r
    }

    pub fn new(x: i64, y: i64) -> (v: Vec2)
        ensures
            v.x == x,
            v.y == y,
    {
        Vec2 { x, y }
    }

    /// The origin.
    pub fn zero() -> (v: Vec2)
        ensures
            v.x == 0,
            v.y == 0,
    {
        Vec2 { x: 0, y: 0 }
    }

    /// Stretches the vector by the fixed-point factor `k`.
    pub fn scale(self, k: i64) -> (v: Vec2)
        requires
            self.in_range(),
            in_range(k as int),
        ensures
            v == self.scaled(k as int),
            v.x == fmul(self.x as int, k as int),
            v.y == fmul(self.y as int, k as int),
    {
        Vec2 { x: fixed_mul(self.x, k), y: fixed_mul(self.y, k) }
    }

    /// Adds two vectors.
    pub fn sum_with(self, other: Vec2) -> (v: Vec2)
        requires
            i64::MIN <= self.x + other.x <= i64::MAX,
            i64::MIN <= self.y + other.y <= i64::MAX,
        ensures
            v == self.plus(other),
            v.x == self.x + other.x,
            v.y == self.y + other.y,
    {
        Vec2 { x: self.x + other.x, y: self.y + other.y }
    }

    /// Turns the vector about.
    pub fn reversed(self) -> (v: Vec2)
        requires
            self.x > i64::MIN,
            self.y > i64::MIN,
        ensures
            v == self.negated(),
            v.x == -self.x,
            v.y == -self.y,
    {
        Vec2 { x: -self.x, y: -self.y }
    }

    /// The square of the distance to `other`.
    pub fn distance_squared(self, other: Vec2) -> (d: i128)
        requires
            self.in_range(),
            other.in_range(),
        ensures
            d == self.dist_sq(other),
            0 <= d <= 8 * LIMIT * LIMIT,
    {
        let dx: i128 = (self.x as i128) - (other.x as i128);
        let dy: i128 = (self.y as i128) - (other.y as i128);
        proof {
            lemma_product_bound(dx as int, dx as int, 2 * LIMIT);
            lemma_product_bound(dy as int, dy as int, 2 * LIMIT);
            assert(dx * dx >= 0 && dy * dy >= 0) by (nonlinear_arith);
        }
        dx * dx + dy * dy
    }

    /// Tells whether `other` is less than `r` away.
    pub fn is_closer_than(self, other: Vec2, r: i64) -> (b: bool)
        requires
            self.in_range(),
            other.in_range(),
            in_range(r as int),
        ensures
            b == self.closer_than(other, r as int),
    {
        if r <= 0 {
            return false;
        }
        proof {
            lemma_product_bound(r as int, r as int, LIMIT as int);
        }
        let rr: i128 = (r as i128) * (r as i128);
        self.distance_squared(other) < rr
    }

    /// Tells whether `other` is more than `r` away.
    pub fn is_farther_than(self, other: Vec2, r: i64) -> (b: bool)
        requires
            self.in_range(),
            other.in_range(),
            -LIMIT * 2 <= r <= LIMIT * 2,
        ensures
            b == self.farther_than(other, r as int),
    {
        if r < 0 {
            return true;
        }
        proof {
            lemma_product_bound(r as int, r as int, 2 * LIMIT);
        }
        let rr: i128 = (r as i128) * (r as i128);
        self.distance_squared(other) > rr
    }
}

/// A product of two numbers of magnitude at most `m` has magnitude at most `m * m`.
pub proof fn lemma_product_bound(a: int, b: int, m: int)
    requires
        -m <= a <= m,
        -m <= b <= m,
    ensures
        -(m * m) <= a * b <= m * m,
{
    assert(-(m * m) <= a * b <= m * m) by (nonlinear_arith)
        requires
            -m <= a <= m,
            -m <= b <= m,
    ;
}

/// The fixed-point product is no larger in magnitude than one factor when
/// the other is at most one in magnitude.
pub proof fn lemma_fmul_unit(a: int, u: int)
    requires
        -ONE <= u <= ONE,
    ensures
        fmul(u, a) == fmul(a, u),
        a >= 0 ==> -a <= fmul(a, u) <= a,
        a <= 0 ==> a <= fmul(a, u) <= -a,
{
    let m: int = if a >= 0 { a } else { -a };
    let p: int = a * u;
    assert(u * a == a * u) by (nonlinear_arith);
    assert(-(m * ONE) <= p <= m * ONE) by (nonlinear_arith)
        requires
            -ONE <= u <= ONE,
            -m <= a <= m,
            p == a * u,
    ;
    if p >= 0 {
        assert(p / (ONE as int) <= m) by (nonlinear_arith)
            requires
                0 <= p <= m * ONE,
        ;
        assert(p / (ONE as int) >= 0) by (nonlinear_arith)
            requires
                0 <= p,
        ;
    } else {
        assert((-p) / (ONE as int) <= m) by (nonlinear_arith)
            requires
                0 <= -p <= m * ONE,
        ;
        assert((-p) / (ONE as int) >= 0) by (nonlinear_arith)
            requires
                0 <= -p,
        ;
    }
}

/// Multiplying by exactly 1.0 changes nothing, and multiplying by zero gives zero.
pub proof fn lemma_fmul_identities(a: int)
    ensures
        fmul(a, ONE as int) == a,
        fmul(a, 0) == 0,
        fmul(0, a) == 0,
{
    assert((a * ONE) / (ONE as int) == a) by (nonlinear_arith);
    assert(((-a) * ONE) / (ONE as int) == -a) by (nonlinear_arith);
    assert(-(a * ONE) == (-a) * ONE) by (nonlinear_arith);
    assert(a * 0 == 0 && 0 * a == 0) by (nonlinear_arith);
}

/// Multiplies two fixed-point numbers.
pub fn fixed_mul(a: i64, b: i64) -> (r: i64)
    requires
        in_range(a as int),
        in_range(b as int),
    ensures
        r == fmul(a as int, b as int),
        -LIMIT * ONE <= r <= LIMIT * ONE,
{
    proof {
        lemma_product_bound(a as int, b as int, LIMIT as int);
    }
    let wide: i128 = (a as i128) * (b as i128);
    if wide >= 0 {
        let q: i128 = wide / (ONE as i128);
        q as i64
    } else {
        let q: i128 = (-wide) / (ONE as i128);
        (-q) as i64
    }
}

/// Holds `v` between `lo` and `hi`.
pub fn clamp(v: i64, lo: i64, hi: i64) -> (r: i64)
    ensures
        r == clamped(v as int, lo as int, hi as int),
{
    if v < lo {
        if lo < hi { lo } else { hi }
    } else if v > hi {
        hi
    } else {
        v
    }
}

/// Brings an angle into `[0, TAU)` by adding or removing whole turns.
pub fn wrap_angle(a: i64) -> (r: i64)
    requires
        a > i64::MIN,
    ensures
        r == turned(a as int),
        0 <= r < TAU,
{
    if a >= 0 {
        a % TAU
    } else {
        let m: i64 = (-a) % TAU;
        proof {
            let t: int = TAU as int;
            let n: int = -(a as int);
            assert(n == t * (n / t) + (n % t)) by (nonlinear_arith)
                requires
                    t > 0,
            ;
            if m == 0 {
                assert((a as int) % t == 0) by (nonlinear_arith)
                    requires
                        t > 0,
                        a as int == t * (-(n / t)),
                ;
            } else {
                assert((a as int) % t == t - m) by (nonlinear_arith)
                    requires
                        t > 0,
                        0 < m < t,
                        a as int == t * (-(n / t) - 1) + (t - m),
                ;
            }
        }
        if m == 0 { 0 } else { TAU - m }
    }
}

} // verus!
