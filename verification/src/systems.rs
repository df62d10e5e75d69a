use vstd::prelude::*;
use rand::rngs::ThreadRng;
use rand::{thread_rng, Rng};
use crate::components::{Enemy, Player, Velocity};
use crate::enemy::lemma_moved_velocity_is_unit;
use crate::gamestate::{toggled, GameState};
use crate::player::Intent;
use crate::pool::{
    after_reset, all_dormant, enemies_after, first_dormant, lemma_first_dormant_unique,
    with_next_active,
};
use crate::resources::{elapsed_after_tick, EnemySpawnTimer, WindowDimensions};
use crate::utilities::{check_circle_collision, circles_collide, Position};
use crate::ENTITY_SIZE;

verus! {

/// Least velocity component that a new enemy is given.
pub const VELOCITY_MIN: i32 = 1;

/// Greatest velocity component that a new enemy is given.
pub const VELOCITY_MAX: i32 = 1000;

/// `rand::rngs::ThreadRng`, taken as it is: a handle to the thread's
/// generator.
#[verifier::external_type_specification]
#[verifier::external_body]
pub struct ExThreadRng(rand::rngs::ThreadRng);

/// `rand::thread_rng` hands out the calling thread's generator. Nothing is
/// claimed of it. It fails only where the system has no entropy to seed it.
pub assume_specification[ rand::thread_rng ]() -> (rng: ThreadRng);

/// `rand::Rng::gen_range` on an inclusive range of `i64`: the draw lies in
/// the range. Which value comes is left open.
#[verifier::external_body]
fn draw_between(rng: &mut ThreadRng, low: i64, high: i64) -> (value: i64)
    requires
        low <= high,
    ensures
        low <= value <= high,
{
    rng.gen_range(low..=high)
}

/// The player at the start of a session: in the middle of the arena.
pub fn setup(window: &WindowDimensions) -> (player: Player)
    requires
        window.wf(),
    ensures
        player.position.x == window.width / 2,
        player.position.y == window.height / 2,
        window.contains(player.position),
{
    Player { position: Position { x: window.width / 2, y: window.height / 2 } }
}

/// Fills a pool of `capacity` dormant records. Each position is drawn from
/// the arena, each velocity component from `VELOCITY_MIN` to `VELOCITY_MAX`.
pub fn setup_enemy_pool(capacity: usize, window: &WindowDimensions) -> (enemies: Vec<Enemy>)
    requires
        window.wf(),
    ensures
        enemies@.len() == capacity,
        forall|i: int|
            0 <= i < enemies@.len() ==> {
                let enemy = #[trigger] enemies@[i];
                &&& !enemy.active
                &&& window.contains(enemy.position)
                &&& VELOCITY_MIN <= enemy.velocity.x <= VELOCITY_MAX
                &&& VELOCITY_MIN <= enemy.velocity.y <= VELOCITY_MAX
            },
{
    let mut rng = thread_rng();
    let mut enemies: Vec<Enemy> = Vec::new();
    while enemies.len() < capacity
        invariant
            window.wf(),
            enemies@.len() <= capacity,
            forall|i: int|
                0 <= i < enemies@.len() ==> {
                    let enemy = #[trigger] enemies@[i];
                    &&& !enemy.active
                    &&& window.contains(enemy.position)
                    &&& VELOCITY_MIN <= enemy.velocity.x <= VELOCITY_MAX
                    &&& VELOCITY_MIN <= enemy.velocity.y <= VELOCITY_MAX
                },
        decreases capacity - enemies@.len(),
    {
        let velocity = Velocity {
            x: draw_between(&mut rng, VELOCITY_MIN as i64, VELOCITY_MAX as i64) as i32,
            y: draw_between(&mut rng, VELOCITY_MIN as i64, VELOCITY_MAX as i64) as i32,
        };
        let position = Position {
            x: draw_between(&mut rng, 0, window.width),
            y: draw_between(&mut rng, 0, window.height),
        };
        enemies.push(Enemy { position, velocity, active: false });
    }
    enemies
}

/// Activates the first dormant record of the pool, in index order, and says
/// whether there was one. A pool without a dormant record is left as it is.
pub fn enemy_spawn(enemies: &mut Vec<Enemy>) -> (found: bool)
    ensures
        final(enemies)@ == with_next_active(old(enemies)@),
        found == (first_dormant(old(enemies)@) < old(enemies)@.len()),
{
    let mut i: usize = 0;
    while i < enemies.len()
        invariant
            i <= enemies.len(),
            enemies@ == old(enemies)@,
            forall|j: int| 0 <= j < i ==> (#[trigger] enemies@[j]).active,
        decreases enemies.len() - i,
    {
        if !enemies[i].active {
            proof {
                lemma_first_dormant_unique(enemies@, i as int);
            }
            let record = enemies[i];
            enemies[i] = Enemy { active: true, ..record };
            return true;
        }
        i += 1;
    }
    proof {
        lemma_first_dormant_unique(enemies@, i as int);
    }
    false
}

/// Counts `dt` nanoseconds on the spawn timer and, if the countdown fires,
/// activates the next dormant enemy. Says whether it fired.
pub fn enemy_spawn_timer(
    enemies: &mut Vec<Enemy>,
    timer: &mut EnemySpawnTimer,
    dt: u64,
) -> (fired: bool)
    requires
        old(timer).wf(),
    ensures
        final(timer).wf(),
        final(timer).period() == old(timer).period(),
        final(timer).elapsed() == elapsed_after_tick(
            old(timer).elapsed(),
            old(timer).period(),
            dt as nat,
        ),
        fired == (old(timer).elapsed() + dt >= old(timer).period()),
        final(timer).finished() == fired,
        final(enemies)@ == if fired {
            with_next_active(old(enemies)@)
        } else {
            old(enemies)@
        },
{
    let fired = timer.tick(dt);
    if fired {
        enemy_spawn(enemies);
    }
    fired
}

/// Moves the player by `dt` nanoseconds under `input` and holds it in the
/// arena.
pub fn player_movement(player: &mut Player, input: Intent, dt: u64, window: &WindowDimensions)
    requires
        window.wf(),
    ensures
        *final(player) == old(player).after(input, dt as nat, *window),
        window.contains(final(player).position),
{
    *player = player.advance(input, dt, window);
}

/// Moves every active enemy by `dt` nanoseconds, turns it at the walls and
/// holds it in the arena. Dormant records stay as they are.
pub fn enemy_movement(enemies: &mut Vec<Enemy>, dt: u64, window: &WindowDimensions)
    requires
        window.wf(),
    ensures
        final(enemies)@ == enemies_after(old(enemies)@, dt as nat, *window),
        forall|i: int|
            0 <= i < old(enemies)@.len() && old(enemies)@[i].active ==> window.contains(
                (#[trigger] final(enemies)@[i]).position,
            ),
        forall|i: int|
            0 <= i < old(enemies)@.len() && old(enemies)@[i].active
                && old(enemies)@[i].velocity.length_squared() != 0
                ==> (#[trigger] final(enemies)@[i]).velocity.is_unit(),
{
    let mut i: usize = 0;
    while i < enemies.len()
        invariant
            window.wf(),
            i <= enemies.len(),
            enemies@.len() == old(enemies)@.len(),
            forall|j: int|
                0 <= j < i ==> (#[trigger] enemies@[j]) == old(enemies)@[j].after(dt as nat, *window),
            forall|j: int|
                i <= j < enemies@.len() ==> (#[trigger] enemies@[j]) == old(enemies)@[j],
        decreases enemies.len() - i,
    {
        let moved = enemies[i].advance(dt, window);
        enemies[i] = moved;
        i += 1;
    }
    proof {
        assert(enemies@ =~= enemies_after(old(enemies)@, dt as nat, *window));
        assert forall|j: int|
            0 <= j < old(enemies)@.len() && old(enemies)@[j].active
                && old(enemies)@[j].velocity.length_squared() != 0
            implies (#[trigger] enemies@[j]).velocity.is_unit() by {
            lemma_moved_velocity_is_unit(old(enemies)@[j], dt as nat, *window);
        }
    }
}

/// Whether the player touches an active enemy of the pool.
pub open spec fn any_collision(player: Player, pool: Seq<Enemy>) -> bool {
    exists|i: int|
        0 <= i < pool.len() && (#[trigger] pool[i]).active && circles_collide(
            player.position,
            pool[i].position,
        )
}

/// Whether `b` lies in the vertical band of twice the entity size to either
/// side of `a`. Entities outside each other's band cannot touch.
fn within_band(a: Position, b: Position) -> (inside: bool)
    ensures
        inside == (a.x - 2 * ENTITY_SIZE <= b.x <= a.x + 2 * ENTITY_SIZE),
        circles_collide(a, b) ==> inside,
{
    let margin: i128 = 2 * (ENTITY_SIZE as i128);
    let inside = b.x as i128 <= a.x as i128 + margin && b.x as i128 >= a.x as i128 - margin;
    proof {
        let dx: int = a.x - b.x;
        let dy: int = a.y - b.y;
        if !inside {
            assert(dx * dx > 400_000_000_000_000 && dy * dy >= 0) by (nonlinear_arith)
                requires
                    dx > 20_000_000 || dx < -20_000_000,
            ;
        }
    }
    inside
}

/// Ends the round if the player touches an active enemy: the state becomes
/// `GameOver` then, and stays as it is otherwise.
pub fn check_collisions(player: &Player, enemies: &Vec<Enemy>, state: &mut GameState)
    ensures
        *final(state) == if any_collision(*player, enemies@) {
            GameState::GameOver
        } else {
            *old(state)
        },
{
    let mut i: usize = 0;
    while i < enemies.len()
        invariant
            i <= enemies.len(),
            *state == *old(state),
            forall|j: int|
                0 <= j < i ==> !((#[trigger] enemies@[j]).active && circles_collide(
                    player.position,
                    enemies@[j].position,
                )),
        decreases enemies.len() - i,
    {
        let enemy = enemies[i];
        if enemy.active && within_band(player.position, enemy.position) {
            if check_circle_collision(player.position, enemy.position) {
                *state = GameState::GameOver;
                return;
            }
        }
        i += 1;
    }
}

/// Starts a new round: every enemy becomes dormant, the spawn timer starts
/// its period anew, the state becomes `Running`, and one enemy is activated.
pub fn reset(enemies: &mut Vec<Enemy>, timer: &mut EnemySpawnTimer, state: &mut GameState)
    ensures
        final(enemies)@ == after_reset(old(enemies)@),
        final(timer).elapsed() == 0,
        !final(timer).finished(),
        final(timer).period() == old(timer).period(),
        old(timer).wf() ==> final(timer).wf(),
        *final(state) == GameState::Running,
{
    let mut i: usize = 0;
    while i < enemies.len()
        invariant
            i <= enemies.len(),
            enemies@.len() == old(enemies)@.len(),
            forall|j: int| 0 <= j < i ==> (#[trigger] enemies@[j]) == old(enemies)@[j].dormant(),
            forall|j: int| i <= j < enemies@.len() ==> (#[trigger] enemies@[j]) == old(enemies)@[j],
        decreases enemies.len() - i,
    {
        let record = enemies[i];
        enemies[i] = Enemy { active: false, ..record };
        i += 1;
    }
    assert(enemies@ =~= all_dormant(old(enemies)@));
    timer.0.reset();
    *state = GameState::Running;
    enemy_spawn(enemies);
}

/// Applies the toggle signal of one tick. Without a press nothing changes.
/// A press leads from `Start` and `Paused` to `Running` and from `Running`
/// to `Paused`; from `GameOver` it starts a new round, as `reset` does.
pub fn handle_space(
    pressed: bool,
    enemies: &mut Vec<Enemy>,
    timer: &mut EnemySpawnTimer,
    state: &mut GameState,
)
    ensures
        *final(state) == if pressed {
            toggled(*old(state))
        } else {
            *old(state)
        },
        pressed && *old(state) == GameState::GameOver ==> {
            &&& final(enemies)@ == after_reset(old(enemies)@)
            &&& final(timer).elapsed() == 0
            &&& !final(timer).finished()
            &&& final(timer).period() == old(timer).period()
        },
        !(pressed && *old(state) == GameState::GameOver) ==> {
            &&& final(enemies)@ == old(enemies)@
            &&& *final(timer) == *old(timer)
        },
        old(timer).wf() ==> final(timer).wf(),
{
    if pressed {
        match *state {
            GameState::Paused => {
                *state = GameState::Running;
            },
            GameState::Start => {
                *state = GameState::Running;
            },
            GameState::Running => {
                *state = GameState::Paused;
            },
            GameState::GameOver => {
                reset(enemies, timer, state);
            },
        }
    }
}

} // verus!
