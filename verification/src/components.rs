use vstd::prelude::*;
use crate::math::{integer_sqrt, isqrt, lemma_isqrt_bounds, lemma_square_strictly_monotone};
use crate::utilities::Position;
use crate::DIRECTION_SCALE;

verus! {

/// The direction in which an enemy travels. Only the direction counts: the
/// integrator rescales it to unit length, which is `DIRECTION_SCALE`.
#[derive(Clone, Copy, Debug, PartialEq, Eq, Structural)]
pub struct Velocity {
    pub x: i32,
    pub y: i32,
}

/// The player: a point that moves by directional intent.
#[derive(Clone, Copy, Debug, PartialEq, Eq, Structural)]
pub struct Player {
    pub position: Position,
}

/// One record of the enemy pool. A dormant record (`active == false`) waits
/// to be activated; its velocity means nothing until then.
#[derive(Clone, Copy, Debug, PartialEq, Eq, Structural)]
pub struct Enemy {
    pub position: Position,
    pub velocity: Velocity,
    pub active: bool,
}

/// Magnitude of one component of the unit vector along a vector with the
/// component `a` and the squared length `q`: `DIRECTION_SCALE * |a| / sqrt(q)`,
/// rounded down.
pub open spec fn unit_magnitude(a: int, q: int) -> nat {
    isqrt(((a * a * (DIRECTION_SCALE * DIRECTION_SCALE)) / q) as nat)
}

/// One component of the unit vector, with the sign of `a`.
pub open spec fn unit_component(a: int, q: int) -> int {
    if a >= 0 {
        unit_magnitude(a, q) as int
    } else {
        -(unit_magnitude(a, q) as int)
    }
}

impl Velocity {
    pub open spec fn length_squared(self) -> int {
        self.x * self.x + self.y * self.y
    }

    /// The vector rescaled to unit length; the zero vector stays as it is.
    pub open spec fn normalized(self) -> Velocity {
        let q = self.length_squared();
        if q == 0 {
            self
        } else {
            Velocity { x: unit_component(self.x as int, q) as i32, y: unit_component(self.y as int, q) as i32 }
        }
    }

    /// A vector of unit length, as far as the grid allows: it is no longer
    /// than `DIRECTION_SCALE`, and one step on both axes makes it longer.
    pub open spec fn is_unit(self) -> bool {
        let ax: int = if self.x >= 0 { self.x as int } else { -(self.x as int) };
        let ay: int = if self.y >= 0 { self.y as int } else { -(self.y as int) };
        &&& ax * ax + ay * ay <= DIRECTION_SCALE * DIRECTION_SCALE
        &&& DIRECTION_SCALE * DIRECTION_SCALE < (ax + 1) * (ax + 1) + (ay + 1) * (ay + 1)
    }

    /// Rescales the vector to unit length.
    pub fn normalize(self) -> (unit: Velocity)
        ensures
            unit == self.normalized(),
            -DIRECTION_SCALE <= unit.x <= DIRECTION_SCALE,
            -DIRECTION_SCALE <= unit.y <= DIRECTION_SCALE,
            self.length_squared() != 0 ==> unit.is_unit(),
    {
        let x: i64 = self.x as i64;
        let y: i64 = self.y as i64;
        proof {
            lemma_square_bound(x as int);
            lemma_square_bound(y as int);
        }
        let q: u64 = (x * x) as u64 + (y * y) as u64;
        if q == 0 {
            proof {
                lemma_zero_square(x as int, y as int);
            }
            return self;
        }
        proof {
            lemma_normalized_is_unit(self);
        }
        Velocity { x: normalize_component(self.x, q), y: normalize_component(self.y, q) }
    }
}

proof fn lemma_square_bound(a: int)
    requires
        -0x8000_0000 <= a <= 0x8000_0000,
    ensures
        0 <= a * a <= 0x4000_0000_0000_0000,
{
    assert(0 <= a * a <= 0x4000_0000_0000_0000) by (nonlinear_arith)
        requires
            -0x8000_0000 <= a <= 0x8000_0000,
    ;
}

proof fn lemma_zero_square(a: int, b: int)
    requires
        a * a + b * b == 0,
    ensures
        a == 0,
        b == 0,
{
    assert(a == 0 && b == 0) by (nonlinear_arith)
        requires
            a * a + b * b == 0,
    ;
}

/// The magnitude of a unit component never exceeds `DIRECTION_SCALE`.
pub proof fn lemma_unit_magnitude_bound(a: int, q: int)
    requires
        q > 0,
        a * a <= q,
    ensures
        unit_magnitude(a, q) <= DIRECTION_SCALE,
{
    let s2: int = DIRECTION_SCALE * DIRECTION_SCALE;
    let num: int = a * a * s2;
    let quo: int = num / q;
    assert(0 <= a * a) by (nonlinear_arith);
    assert(0 <= quo <= s2) by (nonlinear_arith)
        requires
            quo == num / q,
            num == a * a * s2,
            0 <= a * a <= q,
            q > 0,
            s2 == 1_000_000_000_000,
    ;
    let r = unit_magnitude(a, q);
    lemma_isqrt_bounds(quo as nat);
    if r > DIRECTION_SCALE {
        lemma_square_strictly_monotone(DIRECTION_SCALE as nat, r);
    }
}

/// No component of a normalized vector exceeds `DIRECTION_SCALE`.
pub proof fn lemma_normalized_bounds(v: Velocity)
    ensures
        -DIRECTION_SCALE <= v.normalized().x <= DIRECTION_SCALE,
        -DIRECTION_SCALE <= v.normalized().y <= DIRECTION_SCALE,
{
    let q = v.length_squared();
    assert(0 <= v.x * v.x && 0 <= v.y * v.y) by (nonlinear_arith);
    if q == 0 {
        lemma_zero_square(v.x as int, v.y as int);
    } else {
        lemma_unit_magnitude_bound(v.x as int, q);
        lemma_unit_magnitude_bound(v.y as int, q);
    }
}

/// Normalizing any vector but zero gives a vector of unit length.
pub proof fn lemma_normalized_is_unit(v: Velocity)
    requires
        v.length_squared() != 0,
    ensures
        v.normalized().is_unit(),
{
    let s2: int = DIRECTION_SCALE * DIRECTION_SCALE;
    let xx: int = v.x * v.x;
    let yy: int = v.y * v.y;
    let q: int = xx + yy;
    assert(xx >= 0 && yy >= 0) by (nonlinear_arith)
        requires
            xx == v.x * v.x,
            yy == v.y * v.y,
    ;
    let a: int = xx * s2;
    let b: int = yy * s2;
    let fa: int = a / q;
    let fb: int = b / q;
    assert(a + b == s2 * q) by (nonlinear_arith)
        requires
            a == xx * s2,
            b == yy * s2,
            q == xx + yy,
    ;
    assert(0 <= fa && 0 <= fb && fa + fb <= s2 < fa + fb + 2) by (nonlinear_arith)
        requires
            fa == a / q,
            fb == b / q,
            a + b == s2 * q,
            a >= 0,
            b >= 0,
            q > 0,
    ;
    lemma_unit_magnitude_bound(v.x as int, q);
    lemma_unit_magnitude_bound(v.y as int, q);
    let mx = unit_magnitude(v.x as int, q);
    let my = unit_magnitude(v.y as int, q);
    lemma_isqrt_bounds(fa as nat);
    lemma_isqrt_bounds(fb as nat);
    let n = v.normalized();
    assert(n.x == unit_component(v.x as int, q));
    assert(n.y == unit_component(v.y as int, q));
}

/// One component of the unit vector along a vector with the component `a`
/// and the squared length `q`.
fn normalize_component(a: i32, q: u64) -> (c: i32)
    requires
        q > 0,
        a * a <= q,
    ensures
        c == unit_component(a as int, q as int),
        -DIRECTION_SCALE <= c <= DIRECTION_SCALE,
{
    let wide: i64 = a as i64;
    proof {
        lemma_square_bound(wide as int);
        lemma_unit_magnitude_bound(a as int, q as int);
    }
    let square: u128 = (wide * wide) as u128;
    let scale: u128 = (DIRECTION_SCALE as u128) * (DIRECTION_SCALE as u128);
    assert(square * scale <= 0x4000_0000_0000_0000 * 1_000_000_000_000) by (nonlinear_arith)
        requires
            0 <= square <= 0x4000_0000_0000_0000,
            scale == 1_000_000_000_000,
    ;
    let quotient: u128 = (square * scale) / (q as u128);
    assert(quotient <= scale) by (nonlinear_arith)
        requires
            quotient == (square * scale) / (q as int),
            0 <= square <= q,
            q > 0,
            scale >= 0,
    ;
    let magnitude: u64 = integer_sqrt(quotient as u64);
    assert(a * a * (DIRECTION_SCALE * DIRECTION_SCALE) == square * scale) by (nonlinear_arith)
        requires
            square == a * a,
            scale == DIRECTION_SCALE * DIRECTION_SCALE,
    ;
    if a >= 0 {
        magnitude as i32
    } else {
        -(magnitude as i32)
    }
}

} // verus!
