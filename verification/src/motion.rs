use vstd::prelude::*;
use crate::{DIRECTION_SCALE, ENTITY_SPEED, NANOS_PER_SECOND};

verus! {

/// Sub-units covered in `dt` nanoseconds along an axis on which the
/// direction has the component `component`, rounded toward zero.
pub open spec fn displacement(component: int, dt: nat) -> int {
    if component >= 0 {
        (component * ENTITY_SPEED * dt) / (DIRECTION_SCALE * NANOS_PER_SECOND)
    } else {
        -((-component * ENTITY_SPEED * dt) / (DIRECTION_SCALE * NANOS_PER_SECOND))
    }
}

/// `value` held to the range from 0 to `max`.
pub open spec fn clamped(value: int, max: int) -> int {
    if value < 0 {
        0
    } else if value > max {
        max
    } else {
        value
    }
}

/// Whether a coordinate lies beyond one of the two walls of its axis.
pub open spec fn beyond_walls(value: int, max: int) -> bool {
    value > max || value < 0
}

/// No time, no way.
pub proof fn lemma_displacement_zero(component: int)
    ensures
        displacement(component, 0) == 0,
{
    assert(component * ENTITY_SPEED * 0 == 0) by (nonlinear_arith);
    assert(-component * ENTITY_SPEED * 0 == 0) by (nonlinear_arith);
}

/// A bound on the way covered in one tick, whatever the direction's length.
pub const TRAVEL_LIMIT: i128 = 0x1000_0000_0000_0000_0000_0000_0000_0000;

/// Computes `displacement`.
pub fn travel(component: i32, dt: u64) -> (way: i128)
    ensures
        way == displacement(component as int, dt as nat),
        -TRAVEL_LIMIT <= way <= TRAVEL_LIMIT,
{
    let magnitude: u128 = if component >= 0 {
        component as u128
    } else {
        (-(component as i64)) as u128
    };
    let rate: u128 = magnitude * (ENTITY_SPEED as u128);
    assert(magnitude * 500_000_000 <= 0x8000_0000 * 500_000_000) by (nonlinear_arith)
        requires
            0 <= magnitude <= 0x8000_0000,
    ;
    assert(rate * dt <= 0x8000_0000 * 500_000_000 * 0xffff_ffff_ffff_ffff) by (nonlinear_arith)
        requires
            0 <= rate <= 0x8000_0000 * 500_000_000,
            0 <= dt <= 0xffff_ffff_ffff_ffff,
    ;
    let product: u128 = rate * (dt as u128);
    assert(DIRECTION_SCALE * NANOS_PER_SECOND == 1_000_000_000_000_000) by (nonlinear_arith)
        requires
            DIRECTION_SCALE == 1_000_000,
            NANOS_PER_SECOND == 1_000_000_000,
    ;
    let unit: u128 = (DIRECTION_SCALE as u128) * (NANOS_PER_SECOND as u128);
    let steps: u128 = product / unit;
    assert(steps <= product) by (nonlinear_arith)
        requires
            steps == product / unit,
            unit == 1_000_000_000_000_000,
            product >= 0,
    ;
    assert(0x8000_0000 * 500_000_000 * 0xffff_ffff_ffff_ffff <= TRAVEL_LIMIT) by (nonlinear_arith)
        requires
            TRAVEL_LIMIT == 0x1000_0000_0000_0000_0000_0000_0000_0000,
    ;
    if component >= 0 {
        steps as i128
    } else {
        -(steps as i128)
    }
}

/// Holds a coordinate to the range from 0 to `max`.
pub fn clamp_axis(value: i128, max: i64) -> (held: i64)
    requires
        0 <= max,
    ensures
        held == clamped(value as int, max as int),
        0 <= held <= max,
{
    if value < 0 {
        0
    } else if value > max as i128 {
        max
    } else {
        value as i64
    }
}

} // verus!
