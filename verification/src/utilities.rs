use vstd::prelude::*;
use crate::ENTITY_SIZE;

verus! {

/// A point of the plane, in sub-units.
#[derive(Clone, Copy, Debug, PartialEq, Eq, Structural)]
pub struct Position {
    pub x: i64,
    pub y: i64,
}

/// Squared distance between two points.
pub open spec fn distance_squared(a: Position, b: Position) -> int {
    (a.x - b.x) * (a.x - b.x) + (a.y - b.y) * (a.y - b.y)
}

/// Two entities touch when their centers are closer than twice the entity
/// size.
pub open spec fn circles_collide(a: Position, b: Position) -> bool {
    distance_squared(a, b) < (2 * ENTITY_SIZE) * (2 * ENTITY_SIZE)
}

proof fn lemma_square_monotone(a: int, b: int)
    requires
        0 <= a <= b,
    ensures
        a * a <= b * b,
{
    assert(a * a <= b * b) by (nonlinear_arith)
        requires
            0 <= a <= b,
    ;
}

proof fn lemma_square_symmetric(a: int)
    ensures
        a * a == (-a) * (-a),
        a * a >= 0,
{
    assert(a * a == (-a) * (-a) && a * a >= 0) by (nonlinear_arith);
}

/// Whether the entities centered at `a` and `b` touch.
pub fn check_circle_collision(a: Position, b: Position) -> (hit: bool)
    ensures
        hit == circles_collide(a, b),
{
    let reach: i128 = 2 * (ENTITY_SIZE as i128);
    let dx: i128 = a.x as i128 - b.x as i128;
    let dy: i128 = a.y as i128 - b.y as i128;
    proof {
        lemma_square_symmetric(dx as int);
        lemma_square_symmetric(dy as int);
    }
    if dx >= reach || dx <= -reach {
        proof {
            if dx >= reach {
                lemma_square_monotone(reach as int, dx as int);
            } else {
                lemma_square_monotone(reach as int, -dx as int);
            }
        }
        return false;
    }
    if dy >= reach || dy <= -reach {
        proof {
            if dy >= reach {
                lemma_square_monotone(reach as int, dy as int);
            } else {
                lemma_square_monotone(reach as int, -dy as int);
            }
        }
        return false;
    }
    proof {
        if dx >= 0 {
            lemma_square_monotone(dx as int, reach as int);
        } else {
            lemma_square_monotone(-dx as int, reach as int);
        }
        if dy >= 0 {
            lemma_square_monotone(dy as int, reach as int);
        } else {
            lemma_square_monotone(-dy as int, reach as int);
        }
        assert(reach * reach == 400_000_000_000_000) by (nonlinear_arith)
            requires
                reach == 20_000_000,
        ;
    }
    dx * dx + dy * dy < reach * reach
}

} // verus!
