use dodge_sim::components::{Enemy, Player, Velocity};
use dodge_sim::player::Intent;
use dodge_sim::resources::WindowDimensions;
use dodge_sim::systems::{enemy_movement, player_movement, setup};
use dodge_sim::utilities::Position;
use dodge_sim::DIRECTION_SCALE;

const SECOND: u64 = 1_000_000_000;

fn arena() -> WindowDimensions {
    WindowDimensions { width: 1_280_000_000, height: 720_000_000 }
}

fn intent(up: bool, down: bool, left: bool, right: bool) -> Intent {
    Intent { up, down, left, right }
}

fn player_at(x: i64, y: i64) -> Player {
    Player { position: Position { x, y } }
}

fn enemy(x: i64, y: i64, vx: i32, vy: i32, active: bool) -> Enemy {
    Enemy { position: Position { x, y }, velocity: Velocity { x: vx, y: vy }, active }
}

#[test]
fn intent_sums_to_a_direction() {
    assert_eq!(intent(true, false, false, false).to_direction(), Velocity { x: 0, y: 1 });
    assert_eq!(intent(false, true, false, false).to_direction(), Velocity { x: 0, y: -1 });
    assert_eq!(intent(false, false, true, false).to_direction(), Velocity { x: -1, y: 0 });
    assert_eq!(intent(false, false, false, true).to_direction(), Velocity { x: 1, y: 0 });
    assert_eq!(intent(true, false, false, true).to_direction(), Velocity { x: 1, y: 1 });
    assert_eq!(intent(true, true, false, false).to_direction(), Velocity { x: 0, y: 0 });
    assert_eq!(intent(true, true, true, true).to_direction(), Velocity { x: 0, y: 0 });
    assert_eq!(intent(false, true, true, true).to_direction(), Velocity { x: 0, y: -1 });
}

#[test]
fn player_starts_in_the_middle() {
    assert_eq!(setup(&arena()), player_at(640_000_000, 360_000_000));
    assert_eq!(setup(&WindowDimensions { width: 0, height: 1 }), player_at(0, 0));
}

#[test]
fn player_moves_along_an_axis() {
    let mut player = player_at(640_000_000, 360_000_000);
    player_movement(&mut player, intent(true, false, false, false), SECOND / 10, &arena());
    assert_eq!(player, player_at(640_000_000, 410_000_000));
    player_movement(&mut player, intent(false, false, true, false), SECOND / 10, &arena());
    assert_eq!(player, player_at(590_000_000, 410_000_000));
}

#[test]
fn player_moves_no_faster_on_the_diagonal() {
    let mut player = player_at(640_000_000, 360_000_000);
    player_movement(&mut player, intent(false, true, false, true), SECOND / 10, &arena());
    // 50 units along the diagonal: 35.3553 on each axis
    assert_eq!(player, player_at(640_000_000 + 35_355_300, 360_000_000 - 35_355_300));
}

#[test]
fn player_without_intent_stays() {
    let mut player = player_at(1, 2);
    player_movement(&mut player, intent(false, false, false, false), SECOND, &arena());
    assert_eq!(player, player_at(1, 2));
    player_movement(&mut player, intent(true, true, true, true), SECOND, &arena());
    assert_eq!(player, player_at(1, 2));
}

#[test]
fn player_is_held_in_the_arena() {
    let mut player = player_at(10, 10);
    player_movement(&mut player, intent(false, true, true, false), SECOND, &arena());
    assert_eq!(player, player_at(0, 0));
    player_movement(&mut player, intent(true, false, false, true), 100 * SECOND, &arena());
    assert_eq!(player, player_at(1_280_000_000, 720_000_000));
    player_movement(&mut player, intent(true, false, false, true), u64::MAX, &arena());
    assert_eq!(player, player_at(1_280_000_000, 720_000_000));
}

#[test]
fn player_outside_the_arena_is_brought_in() {
    let mut player = player_at(-5, 9_000_000_000);
    player_movement(&mut player, intent(false, false, false, false), 0, &arena());
    assert_eq!(player, player_at(0, 720_000_000));
}

#[test]
fn zero_dt_leaves_positions_unchanged() {
    let mut player = player_at(17, 4);
    player_movement(&mut player, intent(true, false, false, true), 0, &arena());
    assert_eq!(player, player_at(17, 4));
    let mut pool = vec![enemy(100, 200, 3, -4, true)];
    enemy_movement(&mut pool, 0, &arena());
    assert_eq!(pool[0].position, Position { x: 100, y: 200 });
    assert_eq!(pool[0].velocity, Velocity { x: 600_000, y: -800_000 });
}

#[test]
fn enemy_moves_along_its_unit_velocity() {
    let mut pool = vec![enemy(100_000_000, 200_000_000, 3, 4, true)];
    enemy_movement(&mut pool, SECOND / 10, &arena());
    assert_eq!(pool[0], enemy(130_000_000, 240_000_000, 600_000, 800_000, true));
}

#[test]
fn enemy_speed_does_not_depend_on_the_stored_length() {
    let mut slow = vec![enemy(0, 0, 1, 0, true)];
    let mut fast = vec![enemy(0, 0, 1000, 0, true)];
    enemy_movement(&mut slow, SECOND / 10, &arena());
    enemy_movement(&mut fast, SECOND / 10, &arena());
    assert_eq!(slow, fast);
    assert_eq!(slow[0], enemy(50_000_000, 0, DIRECTION_SCALE, 0, true));
}

#[test]
fn dormant_enemy_stays_as_it_is() {
    let mut pool = vec![enemy(-5, 100, 3, 4, false), enemy(5, 5, 0, 7, true)];
    enemy_movement(&mut pool, SECOND / 10, &arena());
    assert_eq!(pool[0], enemy(-5, 100, 3, 4, false));
    assert_eq!(pool[1], enemy(5, 50_000_005, 0, DIRECTION_SCALE, true));
}

#[test]
fn enemy_turns_at_the_far_wall() {
    let window = arena();
    let mut pool = vec![enemy(window.width - 1_000_000, 100_000_000, 1, 0, true)];
    enemy_movement(&mut pool, SECOND / 10, &window);
    assert_eq!(pool[0], enemy(window.width, 100_000_000, -DIRECTION_SCALE, 0, true));
    enemy_movement(&mut pool, SECOND / 10, &window);
    assert_eq!(pool[0], enemy(window.width - 50_000_000, 100_000_000, -DIRECTION_SCALE, 0, true));
}

#[test]
fn enemy_turns_at_the_near_wall() {
    let mut pool = vec![enemy(100_000_000, 1_000_000, 0, -1, true)];
    enemy_movement(&mut pool, SECOND / 10, &arena());
    assert_eq!(pool[0], enemy(100_000_000, 0, 0, DIRECTION_SCALE, true));
}

#[test]
fn enemy_that_reaches_the_wall_exactly_does_not_turn() {
    let window = arena();
    let mut pool = vec![enemy(window.width - 50_000_000, 50_000_000, 1, 0, true)];
    enemy_movement(&mut pool, SECOND / 10, &window);
    assert_eq!(pool[0], enemy(window.width, 50_000_000, DIRECTION_SCALE, 0, true));
    // the turn comes a tick late
    enemy_movement(&mut pool, SECOND / 10, &window);
    assert_eq!(pool[0], enemy(window.width, 50_000_000, -DIRECTION_SCALE, 0, true));
}

#[test]
fn enemy_turns_on_each_axis_by_itself() {
    let window = arena();
    let mut pool = vec![enemy(window.width, 0, 1, -1, true)];
    enemy_movement(&mut pool, SECOND / 10, &window);
    assert_eq!(pool[0], enemy(window.width, 0, -707_106, 707_106, true));
    let mut pool = vec![enemy(window.width, 360_000_000, 1, -1, true)];
    enemy_movement(&mut pool, SECOND / 10, &window);
    assert_eq!(pool[0], enemy(window.width, 360_000_000 - 35_355_300, -707_106, -707_106, true));
}

#[test]
fn enemy_without_velocity_stays() {
    let mut pool = vec![enemy(5, 6, 0, 0, true)];
    enemy_movement(&mut pool, SECOND, &arena());
    assert_eq!(pool[0], enemy(5, 6, 0, 0, true));
}

#[test]
fn enemies_stay_in_the_arena_over_many_ticks() {
    let window = WindowDimensions { width: 90_000_000, height: 40_000_000 };
    let mut pool = vec![
        enemy(0, 0, 1, 1, true),
        enemy(90_000_000, 40_000_000, 1000, 1, true),
        enemy(45_000_000, 20_000_000, -3, 7, true),
        enemy(1, 39_999_999, i32::MIN, i32::MAX, true),
    ];
    let mut player = player_at(45_000_000, 20_000_000);
    let steps = [16_666_667u64, 1, 0, 250_000_000, 3 * SECOND, 7_000_000, u64::MAX, 33_333_333];
    for round in 0..200 {
        let dt = steps[round % steps.len()];
        enemy_movement(&mut pool, dt, &window);
        player_movement(&mut player, intent(round % 3 == 0, round % 5 == 0, round % 2 == 0, round % 7 == 0), dt, &window);
        assert!(0 <= player.position.x && player.position.x <= window.width);
        assert!(0 <= player.position.y && player.position.y <= window.height);
        for e in &pool {
            assert!(0 <= e.position.x && e.position.x <= window.width);
            assert!(0 <= e.position.y && e.position.y <= window.height);
            let x = (e.velocity.x as i128).abs();
            let y = (e.velocity.y as i128).abs();
            let scale = DIRECTION_SCALE as i128;
            assert!(x * x + y * y <= scale * scale);
            assert!(scale * scale < (x + 1) * (x + 1) + (y + 1) * (y + 1));
        }
    }
}

#[test]
fn movement_in_an_arena_without_extent() {
    let window = WindowDimensions { width: 0, height: 0 };
    let mut pool = vec![enemy(0, 0, 1, 1, true)];
    enemy_movement(&mut pool, SECOND, &window);
    assert_eq!(pool[0], enemy(0, 0, -707_106, -707_106, true));
    let mut player = player_at(0, 0);
    player_movement(&mut player, intent(true, false, false, true), SECOND, &window);
    assert_eq!(player, player_at(0, 0));
}

#[test]
fn arena_sides_must_not_be_negative() {
    assert_eq!(WindowDimensions::new(3, 4), Some(WindowDimensions { width: 3, height: 4 }));
    assert_eq!(WindowDimensions::new(0, 0), Some(WindowDimensions { width: 0, height: 0 }));
    assert_eq!(WindowDimensions::new(-1, 4), None);
    assert_eq!(WindowDimensions::new(3, -1), None);
}
