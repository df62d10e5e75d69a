use vstd::prelude::*;
use crate::components::{Enemy, Velocity, lemma_normalized_bounds, lemma_normalized_is_unit};
use crate::motion::{
    beyond_walls, clamp_axis, clamped, displacement, lemma_displacement_zero, travel,
};
use crate::pool::active_positions;
use crate::resources::WindowDimensions;
use crate::utilities::Position;

verus! {

impl Enemy {
    /// The record with the flag cleared.
    pub open spec fn dormant(self) -> Enemy {
        Enemy { active: false, ..self }
    }

    /// The record with the flag set.
    pub open spec fn activated(self) -> Enemy {
        Enemy { active: true, ..self }
    }

    /// The record after `dt` nanoseconds. A dormant record stays as it is.
    /// An active one has its velocity rescaled to unit length and moves
    /// along it; on each axis by itself, the velocity turns round if the
    /// new coordinate lies beyond a wall, and the coordinate is then held in
    /// the arena.
    pub open spec fn after(self, dt: nat, window: WindowDimensions) -> Enemy {
        if !self.active {
            self
        } else {
            let unit = self.velocity.normalized();
            let x = self.position.x + displacement(unit.x as int, dt);
            let y = self.position.y + displacement(unit.y as int, dt);
            Enemy {
                position: Position {
                    x: clamped(x, window.width as int) as i64,
                    y: clamped(y, window.height as int) as i64,
                },
                velocity: Velocity {
                    x: if beyond_walls(x, window.width as int) { (-unit.x) as i32 } else { unit.x },
                    y: if beyond_walls(y, window.height as int) { (-unit.y) as i32 } else { unit.y },
                },
                active: true,
            }
        }
    }

    /// Computes `after`.
    pub fn advance(self, dt: u64, window: &WindowDimensions) -> (moved: Enemy)
        requires
            window.wf(),
        ensures
            moved == self.after(dt as nat, *window),
            moved.active == self.active,
            self.active ==> window.contains(moved.position),
            self.active && self.velocity.length_squared() != 0 ==> moved.velocity.is_unit(),
    {
        if !self.active {
            return self;
        }
        let unit = self.velocity.normalize();
        let x: i128 = self.position.x as i128 + travel(unit.x, dt);
        let y: i128 = self.position.y as i128 + travel(unit.y, dt);
        let turned = Velocity {
            x: if x > window.width as i128 || x < 0 { -unit.x } else { unit.x },
            y: if y > window.height as i128 || y < 0 { -unit.y } else { unit.y },
        };
        Enemy {
            position: Position { x: clamp_axis(x, window.width), y: clamp_axis(y, window.height) },
            velocity: turned,
            active: true,
        }
    }
}

/// The positions of the active enemies, in the pool's order: what there is
/// to draw of the pool.
pub fn active_enemy_positions(enemies: &Vec<Enemy>) -> (positions: Vec<Position>)
    ensures
        positions@ == active_positions(enemies@),
{
    let mut positions: Vec<Position> = Vec::new();
    let mut i: usize = 0;
    while i < enemies.len()
        invariant
            i <= enemies.len(),
            positions@ == active_positions(enemies@.take(i as int)),
        decreases enemies.len() - i,
    {
        proof {
            assert(enemies@.take(i + 1).drop_last() =~= enemies@.take(i as int));
        }
        if enemies[i].active {
            positions.push(enemies[i].position);
        }
        i += 1;
    }
    proof {
        assert(enemies@.take(i as int) =~= enemies@);
    }
    positions
}

/// A tick of no duration leaves an enemy in the arena where it is, and
/// turns it at no wall.
pub proof fn lemma_no_time_keeps_enemy(enemy: Enemy, window: WindowDimensions)
    requires
        window.contains(enemy.position),
    ensures
        enemy.after(0, window).position == enemy.position,
        enemy.after(0, window).velocity == if enemy.active {
            enemy.velocity.normalized()
        } else {
            enemy.velocity
        },
{
    let unit = enemy.velocity.normalized();
    lemma_displacement_zero(unit.x as int);
    lemma_displacement_zero(unit.y as int);
}

/// An enemy that moves keeps a velocity of unit length, whatever length it
/// had before, unless it had none.
pub proof fn lemma_moved_velocity_is_unit(enemy: Enemy, dt: nat, window: WindowDimensions)
    requires
        enemy.active,
        enemy.velocity.length_squared() != 0,
    ensures
        enemy.after(dt, window).velocity.is_unit(),
{
    lemma_normalized_is_unit(enemy.velocity);
    lemma_normalized_bounds(enemy.velocity);
}

} // verus!
