use vstd::prelude::*;
use crate::components::{Enemy, Player};
use crate::gamestate::{toggled, GameState};
use crate::player::Intent;
use crate::pool::{
    after_reset, enemies_after, lemma_first_dormant, lemma_reset_leaves_one_active, pool_in_arena,
    with_next_active,
};
use crate::resources::{
    elapsed_after_tick, lemma_elapsed_after_tick_bound, EnemySpawnTimer, WindowDimensions,
};
use crate::utilities::Position;
use crate::systems::{
    any_collision, check_collisions, enemy_movement, enemy_spawn, enemy_spawn_timer, handle_space,
    player_movement, setup, setup_enemy_pool, VELOCITY_MAX, VELOCITY_MIN,
};

verus! {

/// One session: the arena, the player, the enemy pool, the spawn timer and
/// the state of the round.
pub struct Game {
    pub window: WindowDimensions,
    pub player: Player,
    pub enemies: Vec<Enemy>,
    pub timer: EnemySpawnTimer,
    pub state: GameState,
    /// Whether a new round puts the player back in the middle of the arena.
    pub recenter_player: bool,
}

/// What a session is made of, as plain values. Times are in nanoseconds.
pub struct GameView {
    pub window: WindowDimensions,
    pub player: Player,
    pub enemies: Seq<Enemy>,
    pub elapsed: nat,
    pub period: nat,
    pub state: GameState,
    pub recenter_player: bool,
}

impl View for Game {
    type V = GameView;

    open spec fn view(&self) -> GameView {
        GameView {
            window: self.window,
            player: self.player,
            enemies: self.enemies@,
            elapsed: self.timer.elapsed(),
            period: self.timer.period(),
            state: self.state,
            recenter_player: self.recenter_player,
        }
    }
}

/// The player in the middle of the arena.
pub open spec fn centered(window: WindowDimensions) -> Player {
    Player { position: Position { x: (window.width / 2) as i64, y: (window.height / 2) as i64 } }
}

impl GameView {
    /// What holds of a session at every tick: the arena has no negative
    /// side, player and enemies lie in it, and the spawn timer has not
    /// counted past its period.
    pub open spec fn inv(self) -> bool {
        &&& self.window.wf()
        &&& self.window.contains(self.player.position)
        &&& pool_in_arena(self.enemies, self.window)
        &&& self.elapsed <= self.period
    }

    /// Player and enemies have moved for `dt`.
    pub open spec fn moved(self, input: Intent, dt: nat) -> GameView {
        GameView {
            player: self.player.after(input, dt, self.window),
            enemies: enemies_after(self.enemies, dt, self.window),
            ..self
        }
    }

    /// Whether the spawn timer fires on a tick of `dt`.
    pub open spec fn fires(self, dt: nat) -> bool {
        self.elapsed + dt >= self.period
    }

    /// The spawn timer has counted `dt`, and has activated an enemy if it
    /// fired.
    pub open spec fn scheduled(self, dt: nat) -> GameView {
        GameView {
            elapsed: elapsed_after_tick(self.elapsed, self.period, dt),
            enemies: if self.fires(dt) {
                with_next_active(self.enemies)
            } else {
                self.enemies
            },
            ..self
        }
    }

    /// The round is over if the player touches an active enemy.
    pub open spec fn collided(self) -> GameView {
        GameView {
            state: if any_collision(self.player, self.enemies) {
                GameState::GameOver
            } else {
                self.state
            },
            ..self
        }
    }

    /// Whether a press starts a new round.
    pub open spec fn restarts(self, pressed: bool) -> bool {
        pressed && self.state == GameState::GameOver
    }

    /// The toggle signal has been applied: a press changes the state, and
    /// after a round that is over it starts a new one. The new round leaves
    /// the player where it is, unless the session asks to put it back in the
    /// middle.
    pub open spec fn toggle(self, pressed: bool) -> GameView {
        if !pressed {
            self
        } else if self.state == GameState::GameOver {
            GameView {
                player: if self.recenter_player {
                    centered(self.window)
                } else {
                    self.player
                },
                enemies: after_reset(self.enemies),
                elapsed: 0,
                state: GameState::Running,
                ..self
            }
        } else {
            GameView { state: toggled(self.state), ..self }
        }
    }

    /// The session after one tick. While the round runs, entities move,
    /// then the spawn timer counts, then collisions are checked; in every
    /// state the toggle signal is applied last.
    pub open spec fn after_tick(self, input: Intent, pressed: bool, dt: nat) -> GameView {
        if self.state == GameState::Running {
            self.moved(input, dt).scheduled(dt).collided().toggle(pressed)
        } else {
            self.toggle(pressed)
        }
    }
}

impl Game {
    /// What `tick` needs: an arena without a negative side, and a spawn
    /// timer that repeats and has not counted past its period.
    pub open spec fn wf(&self) -> bool {
        self.window.wf() && self.timer.wf()
    }

    /// A session ready for its first tick: the player in the middle of the
    /// arena, a pool of `capacity` enemies of which the first is active, a
    /// spawn timer of `period` nanoseconds, and the state `Start`.
    pub fn new(window: WindowDimensions, capacity: usize, period: u64) -> (game: Game)
        requires
            window.wf(),
        ensures
            game.wf(),
            game@.inv(),
            game@.window == window,
            game@.player == centered(window),
            !game@.recenter_player,
            game@.enemies.len() == capacity,
            forall|i: int|
                0 <= i < capacity ==> {
                    let enemy = #[trigger] game@.enemies[i];
                    &&& enemy.active == (i == 0)
                    &&& VELOCITY_MIN <= enemy.velocity.x <= VELOCITY_MAX
                    &&& VELOCITY_MIN <= enemy.velocity.y <= VELOCITY_MAX
                },
            game@.elapsed == 0,
            game@.period == period,
            game@.state == GameState::Start,
    {
        let player = setup(&window);
        let mut enemies = setup_enemy_pool(capacity, &window);
        proof {
            lemma_first_dormant(enemies@);
        }
        enemy_spawn(&mut enemies);
        Game {
            window,
            player,
            enemies,
            timer: EnemySpawnTimer::new(period),
            state: GameState::Start,
            recenter_player: false,
        }
    }

    /// Advances the session by one tick of `dt` nanoseconds, with the
    /// directions that the player asks for and the toggle signal, which is
    /// true on the tick of a new press only.
    pub fn tick(&mut self, input: Intent, toggle_pressed: bool, dt: u64)
        requires
            old(self).wf(),
        ensures
            final(self).wf(),
            final(self)@ == old(self)@.after_tick(input, toggle_pressed, dt as nat),
            old(self)@.inv() ==> final(self)@.inv(),
    {
        proof {
            if self@.inv() {
                lemma_tick_keeps_invariant(self@, input, toggle_pressed, dt as nat);
            }
        }
        if self.state == GameState::Running {
            player_movement(&mut self.player, input, dt, &self.window);
            enemy_movement(&mut self.enemies, dt, &self.window);
            enemy_spawn_timer(&mut self.enemies, &mut self.timer, dt);
            check_collisions(&self.player, &self.enemies, &mut self.state);
        }
        let restarts = toggle_pressed && self.state == GameState::GameOver;
        handle_space(toggle_pressed, &mut self.enemies, &mut self.timer, &mut self.state);
        if restarts && self.recenter_player {
            self.player = setup(&self.window);
        }
    }
}

/// An activation moves no record.
pub proof fn lemma_activation_keeps_arena(pool: Seq<Enemy>, window: WindowDimensions)
    requires
        pool_in_arena(pool, window),
    ensures
        pool_in_arena(with_next_active(pool), window),
{
    lemma_first_dormant(pool);
    let next = with_next_active(pool);
    assert forall|i: int| 0 <= i < next.len() implies window.contains(
        (#[trigger] next[i]).position,
    ) by {
        assert(window.contains(pool[i].position));
    }
}

/// A reset moves no record.
pub proof fn lemma_reset_keeps_arena(pool: Seq<Enemy>, window: WindowDimensions)
    requires
        pool_in_arena(pool, window),
    ensures
        pool_in_arena(after_reset(pool), window),
{
    lemma_reset_leaves_one_active(pool);
    let next = after_reset(pool);
    assert forall|i: int| 0 <= i < next.len() implies window.contains(
        (#[trigger] next[i]).position,
    ) by {
        assert(window.contains(pool[i].position));
    }
}

/// A tick keeps player and enemies in the arena and the spawn timer within
/// its period, in every state and for every input.
pub proof fn lemma_tick_keeps_invariant(game: GameView, input: Intent, pressed: bool, dt: nat)
    requires
        game.inv(),
    ensures
        game.after_tick(input, pressed, dt).inv(),
{
    let window = game.window;
    if game.state == GameState::Running {
        let moved = game.moved(input, dt);
        assert(pool_in_arena(moved.enemies, window)) by {
            assert forall|i: int| 0 <= i < moved.enemies.len() implies window.contains(
                (#[trigger] moved.enemies[i]).position,
            ) by {
                assert(window.contains(game.enemies[i].position));
            }
        }
        let scheduled = moved.scheduled(dt);
        lemma_elapsed_after_tick_bound(moved.elapsed, moved.period, dt);
        lemma_activation_keeps_arena(moved.enemies, window);
        let collided = scheduled.collided();
        lemma_reset_keeps_arena(collided.enemies, window);
    } else {
        lemma_reset_keeps_arena(game.enemies, window);
    }
}

} // verus!
