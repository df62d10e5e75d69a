use dodge_sim::components::Velocity;
use dodge_sim::math::integer_sqrt;
use dodge_sim::motion::{clamp_axis, travel};
use dodge_sim::utilities::{check_circle_collision, Position};
use dodge_sim::{DIRECTION_SCALE, ENTITY_SIZE};

fn at(x: i64, y: i64) -> Position {
    Position { x, y }
}

#[test]
fn collision_just_inside_the_threshold() {
    assert!(check_circle_collision(at(0, 0), at(2 * ENTITY_SIZE - 1, 0)));
    assert!(check_circle_collision(at(0, 0), at(0, -(2 * ENTITY_SIZE - 1))));
}

#[test]
fn no_collision_just_outside_the_threshold() {
    assert!(!check_circle_collision(at(0, 0), at(2 * ENTITY_SIZE + 1, 0)));
    assert!(!check_circle_collision(at(0, 0), at(0, -(2 * ENTITY_SIZE + 1))));
}

#[test]
fn no_collision_at_the_threshold_itself() {
    assert!(!check_circle_collision(at(0, 0), at(2 * ENTITY_SIZE, 0)));
    // 12 and 16 make 20: a distance of exactly twice the entity size
    assert!(!check_circle_collision(at(0, 0), at(12_000_000, 16_000_000)));
    assert!(check_circle_collision(at(0, 0), at(12_000_000, 15_999_999)));
}

#[test]
fn collision_threshold_is_twice_the_entity_size_not_once() {
    assert!(check_circle_collision(at(0, 0), at(ENTITY_SIZE + 1, 0)));
    assert!(check_circle_collision(at(5, 5), at(5, 5)));
}

#[test]
fn collision_of_far_points_does_not_overflow() {
    assert!(!check_circle_collision(at(i64::MIN, i64::MIN), at(i64::MAX, i64::MAX)));
    assert!(!check_circle_collision(at(i64::MAX, 0), at(i64::MIN, 0)));
    assert!(check_circle_collision(at(i64::MAX, i64::MIN), at(i64::MAX - 3, i64::MIN + 4)));
}

#[test]
fn collision_is_symmetric() {
    let a = at(3_000_000, -7_000_000);
    let b = at(-9_000_000, 6_000_000);
    assert_eq!(check_circle_collision(a, b), check_circle_collision(b, a));
    assert!(check_circle_collision(a, b));
}

#[test]
fn integer_sqrt_rounds_down() {
    assert_eq!(integer_sqrt(0), 0);
    assert_eq!(integer_sqrt(1), 1);
    assert_eq!(integer_sqrt(3), 1);
    assert_eq!(integer_sqrt(4), 2);
    assert_eq!(integer_sqrt(99), 9);
    assert_eq!(integer_sqrt(100), 10);
    assert_eq!(integer_sqrt(500_000_000_000), 707_106);
    assert_eq!(integer_sqrt(u64::MAX), 4_294_967_295);
}

#[test]
fn normalize_gives_the_unit_vector() {
    assert_eq!(Velocity { x: 3, y: 4 }.normalize(), Velocity { x: 600_000, y: 800_000 });
    assert_eq!(Velocity { x: 1, y: 1 }.normalize(), Velocity { x: 707_106, y: 707_106 });
    assert_eq!(Velocity { x: -5, y: 0 }.normalize(), Velocity { x: -DIRECTION_SCALE, y: 0 });
    assert_eq!(Velocity { x: 0, y: 1000 }.normalize(), Velocity { x: 0, y: DIRECTION_SCALE });
    assert_eq!(Velocity { x: -1, y: 1 }.normalize(), Velocity { x: -707_106, y: 707_106 });
}

#[test]
fn normalize_leaves_the_zero_vector() {
    assert_eq!(Velocity { x: 0, y: 0 }.normalize(), Velocity { x: 0, y: 0 });
}

fn unit_length(v: Velocity) -> bool {
    let scale = DIRECTION_SCALE as i128;
    let x = (v.x as i128).abs();
    let y = (v.y as i128).abs();
    x * x + y * y <= scale * scale && scale * scale < (x + 1) * (x + 1) + (y + 1) * (y + 1)
}

#[test]
fn normalize_gives_unit_length_whatever_the_length_before() {
    let samples = [
        Velocity { x: 1, y: 1000 },
        Velocity { x: 1000, y: 1 },
        Velocity { x: 999, y: 1000 },
        Velocity { x: i32::MAX, y: i32::MIN },
        Velocity { x: i32::MIN, y: i32::MIN },
        Velocity { x: 1, y: i32::MAX },
        Velocity { x: -7, y: 24 },
        Velocity { x: 123_456, y: -654_321 },
    ];
    for v in samples {
        let unit = v.normalize();
        assert!(unit_length(unit), "{:?} gave {:?}", v, unit);
        assert_eq!(unit.x.signum(), if unit.x == 0 { 0 } else { v.x.signum() });
        assert_eq!(unit.y.signum(), if unit.y == 0 { 0 } else { v.y.signum() });
    }
}

#[test]
fn normalize_of_a_unit_vector_stays_unit() {
    let once = Velocity { x: 1, y: 1 }.normalize();
    let twice = once.normalize();
    assert!(unit_length(twice));
    assert_eq!(Velocity { x: DIRECTION_SCALE, y: 0 }.normalize(), Velocity { x: DIRECTION_SCALE, y: 0 });
}

#[test]
fn travel_is_speed_times_time() {
    // a full second along the axis: 500 units
    assert_eq!(travel(DIRECTION_SCALE, 1_000_000_000), 500_000_000);
    assert_eq!(travel(-DIRECTION_SCALE, 1_000_000_000), -500_000_000);
    // a sixtieth of a second on the diagonal
    assert_eq!(travel(707_106, 16_666_667), 5_892_550);
    assert_eq!(travel(-707_106, 16_666_667), -5_892_550);
    assert_eq!(travel(0, 1_000_000_000), 0);
}

#[test]
fn travel_rounds_toward_zero() {
    // 1 nanosecond at full speed is half a sub-unit
    assert_eq!(travel(DIRECTION_SCALE, 1), 0);
    assert_eq!(travel(-DIRECTION_SCALE, 1), 0);
    assert_eq!(travel(DIRECTION_SCALE, 3), 1);
    assert_eq!(travel(-DIRECTION_SCALE, 3), -1);
}

#[test]
fn travel_in_no_time_is_nothing() {
    assert_eq!(travel(DIRECTION_SCALE, 0), 0);
    assert_eq!(travel(i32::MIN, 0), 0);
}

#[test]
fn travel_takes_the_longest_tick() {
    assert_eq!(travel(DIRECTION_SCALE, u64::MAX), (u64::MAX / 2) as i128);
    assert_eq!(travel(-DIRECTION_SCALE, u64::MAX), -((u64::MAX / 2) as i128));
}

#[test]
fn clamp_axis_holds_to_the_range() {
    assert_eq!(clamp_axis(-1, 100), 0);
    assert_eq!(clamp_axis(0, 100), 0);
    assert_eq!(clamp_axis(57, 100), 57);
    assert_eq!(clamp_axis(100, 100), 100);
    assert_eq!(clamp_axis(101, 100), 100);
    assert_eq!(clamp_axis(i128::MAX, 100), 100);
    assert_eq!(clamp_axis(i128::MIN, 100), 0);
    assert_eq!(clamp_axis(5, 0), 0);
}
