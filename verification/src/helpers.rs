//! Random draws and small helpers shared by the systems.

use vstd::prelude::*;
use crate::compass::{Compass, heading};
use crate::fixed::{Vec2, LIMIT, ONE, TAU, fmul, in_range, lemma_fmul_unit, lemma_product_bound};

verus! {

/// Calls `fastrand::i64` on the half-open range from `lo` to `hi`, which
/// panics on an empty range and otherwise returns a number of the range.
#[verifier::external_body]
pub(crate) fn random_i64(lo: i64, hi: i64) -> (r: i64)
    requires
        lo < hi,
    ensures
        lo <= r < hi,
{
    fastrand::i64(lo..hi)
}

/// Calls `fastrand::i32` on the half-open range from `lo` to `hi`, which
/// panics on an empty range and otherwise returns a number of the range.
#[verifier::external_body]
pub(crate) fn random_i32(lo: i32, hi: i32) -> (r: i32)
    requires
        lo < hi,
    ensures
        lo <= r < hi,
{
    fastrand::i32(lo..hi)
}

/// Calls `fastrand::bool`, of whose result nothing is known.
#[verifier::external_body]
pub(crate) fn random_bool() -> (r: bool)
{
    fastrand::bool()
}

/// The point that lies the fraction `f` of the way from `lo` to `hi`.
pub open spec fn lerp_spec(lo: int, hi: int, f: int) -> int {
    lo + fmul(f, hi - lo)
}

/// A fraction of a span lies between zero and the span, and short of the span
/// when the fraction is less than one.
pub proof fn lemma_fraction(f: int, d: int)
    requires
        0 <= f < ONE,
    ensures
        d > 0 ==> 0 <= fmul(f, d) < d,
        d < 0 ==> d < fmul(f, d) <= 0,
        d == 0 ==> fmul(f, d) == 0,
{
    let p: int = f * d;
    if d > 0 {
        assert(0 <= p && p < ONE * d) by (nonlinear_arith)
            requires
                0 <= f < ONE,
                d > 0,
                p == f * d,
        ;
        assert(0 <= p / (ONE as int) < d) by (nonlinear_arith)
            requires
                0 <= p < ONE * d,
        ;
    } else if d < 0 {
        assert(0 <= -p && -p < ONE * (-d)) by (nonlinear_arith)
            requires
                0 <= f < ONE,
                d < 0,
                p == f * d,
        ;
        assert(0 <= (-p) / (ONE as int) < -d) by (nonlinear_arith)
            requires
                0 <= -p < ONE * (-d),
        ;
    } else {
        assert(p == 0) by (nonlinear_arith)
            requires
                p == f * d,
                d == 0,
        ;
    }
}

/// The point that lies the fraction `f` of the way from `lo` to `hi`.
pub fn lerp(lo: i64, hi: i64, f: i64) -> (r: i64)
    requires
        in_range(lo as int),
        in_range(hi as int),
        0 <= f < ONE,
    ensures
        r == lerp_spec(lo as int, hi as int, f as int),
        lo < hi ==> lo <= r < hi,
        lo == hi ==> r == lo,
        hi < lo ==> hi < r <= lo,
{
    let d: i128 = (hi as i128) - (lo as i128);
    proof {
        lemma_fraction(f as int, d as int);
        lemma_product_bound(f as int, d as int, 2 * LIMIT);
    }
    let wide: i128 = (f as i128) * d;
    let part: i128 = if wide >= 0 {
        wide / (ONE as i128)
    } else {
        -((-wide) / (ONE as i128))
    };
    ((lo as i128) + part) as i64
}

/// A number drawn at random between `lo` and `hi`: from `lo` up to, but not
/// including, `hi`. Where `hi` is below `lo` it is drawn from above `hi` up
/// to and including `lo`.
pub fn random_range(lo: i64, hi: i64) -> (r: i64)
    requires
        in_range(lo as int),
        in_range(hi as int),
    ensures
        exists|f: int| 0 <= f < ONE && r == lerp_spec(lo as int, hi as int, f),
        lo < hi ==> lo <= r < hi,
        lo == hi ==> r == lo,
        hi < lo ==> hi < r <= lo,
        in_range(r as int),
{
    let f: i64 = random_i64(0, ONE);
    lerp(lo, hi, f)
}

/// The velocity of the given speed along the direction that the table gives
/// for `angle`.
pub open spec fn polar_spec(table: Seq<Vec2>, angle: int, speed: int) -> Vec2 {
    heading(table, angle).scaled(speed)
}

/// The velocity of the given speed along the direction of `angle`.
pub fn polar(compass: &Compass, angle: i64, speed: i64) -> (v: Vec2)
    requires
        0 <= angle < TAU,
        in_range(speed as int),
    ensures
        v == polar_spec(compass@, angle as int, speed as int),
        v.in_range(),
{
    let d: Vec2 = compass.direction(angle);
    proof {
        lemma_fmul_unit(speed as int, d.x as int);
        lemma_fmul_unit(speed as int, d.y as int);
    }
    d.scale(speed)
}

/// A velocity with a direction drawn at random from the whole turn and a
/// speed drawn at random from `lo` up to `hi`.
pub fn get_random_vel(compass: &Compass, lo: i64, hi: i64) -> (v: Vec2)
    requires
        in_range(lo as int),
        in_range(hi as int),
    ensures
        random_vel(compass@, lo as int, hi as int, v),
        v.in_range(),
{
    let angle: i64 = random_range(0, TAU);
    let speed: i64 = random_range(lo, hi);
    polar(compass, angle, speed)
}

/// Whether `v` is a velocity that `get_random_vel` may return for speeds from
/// `lo` to `hi`: one of the table's directions stretched by a speed that lies
/// between the two as the results of `random_range` do.
pub open spec fn random_vel(table: Seq<Vec2>, lo: int, hi: int, v: Vec2) -> bool {
    exists|angle: int, speed: int|
        0 <= angle < TAU && between(lo, hi, speed) && v == #[trigger] polar_spec(
            table,
            angle,
            speed,
        )
}

/// Whether `r` lies between `lo` and `hi` as the results of `random_range` do.
pub open spec fn between(lo: int, hi: int, r: int) -> bool {
    &&& lo < hi ==> lo <= r < hi
    &&& lo == hi ==> r == lo
    &&& hi < lo ==> hi < r <= lo
}

/// Removes every entry of a table of entities.
pub fn despawn_query<T>(table: &mut Vec<T>)
    ensures
        final(table)@ == Seq::<T>::empty(),
{
    table.clear();
}

} // verus!
