use vstd::prelude::*;
use crate::components::{Player, Velocity};
use crate::motion::{clamp_axis, clamped, displacement, lemma_displacement_zero, travel};
use crate::resources::WindowDimensions;
use crate::utilities::Position;

verus! {

/// The directions that the player asks for in one tick.
#[derive(Clone, Copy, Debug, PartialEq, Eq, Structural)]
pub struct Intent {
    pub up: bool,
    pub down: bool,
    pub left: bool,
    pub right: bool,
}

impl Intent {
    /// The sum of the directions asked for: each axis gives -1, 0 or 1, and
    /// opposite directions cancel.
    pub open spec fn direction(self) -> Velocity {
        Velocity {
            x: ((if self.right { 1int } else { 0int }) - (if self.left { 1int } else { 0int })) as i32,
            y: ((if self.up { 1int } else { 0int }) - (if self.down { 1int } else { 0int })) as i32,
        }
    }

    /// Computes `direction`.
    pub fn to_direction(self) -> (sum: Velocity)
        ensures
            sum == self.direction(),
    {
        let mut x: i32 = 0;
        let mut y: i32 = 0;
        if self.up {
            y = y + 1;
        }
        if self.left {
            x = x - 1;
        }
        if self.down {
            y = y - 1;
        }
        if self.right {
            x = x + 1;
        }
        Velocity { x, y }
    }
}

impl Player {
    /// The player after `dt` nanoseconds under `intent`: the position moves
    /// along the unit vector of the intent and is then held in the arena,
    /// each axis by itself.
    pub open spec fn after(self, intent: Intent, dt: nat, window: WindowDimensions) -> Player {
        let unit = intent.direction().normalized();
        Player {
            position: Position {
                x: clamped(self.position.x + displacement(unit.x as int, dt), window.width as int) as i64,
                y: clamped(self.position.y + displacement(unit.y as int, dt), window.height as int) as i64,
            },
        }
    }

    /// Computes `after`.
    pub fn advance(self, intent: Intent, dt: u64, window: &WindowDimensions) -> (moved: Player)
        requires
            window.wf(),
        ensures
            moved == self.after(intent, dt as nat, *window),
            window.contains(moved.position),
    {
        let unit = intent.to_direction().normalize();
        let x: i128 = self.position.x as i128 + travel(unit.x, dt);
        let y: i128 = self.position.y as i128 + travel(unit.y, dt);
        Player { position: Position { x: clamp_axis(x, window.width), y: clamp_axis(y, window.height) } }
    }
}

/// A tick of no duration leaves a player in the arena where it is.
pub proof fn lemma_no_time_keeps_player(player: Player, intent: Intent, window: WindowDimensions)
    requires
        window.contains(player.position),
    ensures
        player.after(intent, 0, window) == player,
{
    let unit = intent.direction().normalized();
    lemma_displacement_zero(unit.x as int);
    lemma_displacement_zero(unit.y as int);
}

} // verus!
