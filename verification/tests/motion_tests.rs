use invaders_core::formation::Formation;
use invaders_core::geom::{collide, Vec2};
use invaders_core::motion::{enemy_movement_step, isqrt64, next_angle};
use invaders_core::TRIG_SCALE;

fn orbit(start_x: i64, offset: (i64, i64), radius: (i64, i64), angle: i64) -> Formation {
    Formation {
        group_id: 1,
        offset: Vec2 { x: offset.0, y: offset.1 },
        radius: Vec2 { x: radius.0, y: radius.1 },
        start: Vec2 { x: start_x, y: 0 },
        angle,
    }
}

#[test]
fn isqrt_exact_values() {
    assert_eq!(isqrt64(0), 0);
    assert_eq!(isqrt64(1), 1);
    assert_eq!(isqrt64(3), 1);
    assert_eq!(isqrt64(4), 2);
    assert_eq!(isqrt64(99), 9);
    assert_eq!(isqrt64(100), 10);
    assert_eq!(isqrt64(u64::MAX), 4_294_967_295);
}

#[test]
fn next_angle_advances_by_quarter_arc_step() {
    // speed 500 px/s, tick 1/180 s, min radius 100 px:
    // 2e12 * 2777 / (3_141_593 * 100_000) = 17678 microradians
    let f = orbit(100_000, (0, 0), (100_000, 100_000), 0);
    assert_eq!(next_angle(&f, 500_000), 17_678);

    // entering from the left half: the parameter runs backwards
    let g = orbit(-100_000, (0, 0), (100_000, 100_000), 50);
    assert_eq!(next_angle(&g, 500_000), 50 - 17_678);

    // the smaller radius (80 px) steers the step
    let h = orbit(100_000, (0, 0), (80_000, 100_000), 0);
    assert_eq!(next_angle(&h, 500_000), 22_098);
}

#[test]
fn movement_advances_by_step_length() {
    // target: 100 px * cos(0) + 100 px = 200 px on the x axis
    let mut pos = Vec2 { x: 0, y: 0 };
    let mut f = orbit(100_000, (100_000, 0), (100_000, 100_000), 0);
    enemy_movement_step(&mut pos, 500_000, &mut f, TRIG_SCALE, 0);
    assert_eq!(pos, Vec2 { x: 2_777, y: 0 });
    // far from the target: the orbit parameter is not committed
    assert_eq!(f.angle, 0);
}

#[test]
fn movement_splits_step_between_axes() {
    // with cos = sin = 0 the target is the ellipse centre (200, 0) px
    let mut pos = Vec2 { x: 150_000, y: 80_000 };
    let mut f = orbit(100_000, (200_000, 0), (100_000, 100_000), 0);
    enemy_movement_step(&mut pos, 500_000, &mut f, 0, 0);
    // distance 94339; x share 50000*2777/94339, y share 80000*2777/94339
    assert_eq!(pos, Vec2 { x: 151_471, y: 77_646 });
    assert_eq!(f.angle, 0);
}

#[test]
fn movement_clamps_at_target_and_commits_angle() {
    let mut pos = Vec2 { x: 198_000, y: 0 };
    let mut f = orbit(100_000, (100_000, 0), (100_000, 100_000), 0);
    enemy_movement_step(&mut pos, 500_000, &mut f, TRIG_SCALE, 0);
    // one step would overshoot to 200777: clamped exactly at the target
    assert_eq!(pos, Vec2 { x: 200_000, y: 0 });
    // distance 2000 is under the proximity threshold 69425: committed
    assert_eq!(f.angle, 17_678);
}

#[test]
fn movement_at_target_stays_put() {
    let mut pos = Vec2 { x: 200_000, y: 0 };
    let mut f = orbit(100_000, (100_000, 0), (100_000, 100_000), 5);
    enemy_movement_step(&mut pos, 500_000, &mut f, TRIG_SCALE, 0);
    // zero distance: the step ratio is taken as zero, no movement
    assert_eq!(pos, Vec2 { x: 200_000, y: 0 });
    // and zero distance is within the threshold: the angle advances
    assert_eq!(f.angle, 5 + 17_678);
}

#[test]
fn next_angle_keeps_parameter_at_the_i64_rim() {
    // the one case where adding the delta would leave the i64 range:
    // the parameter stays where it is instead of wrapping
    let f = orbit(100_000, (0, 0), (100_000, 100_000), i64::MAX);
    assert_eq!(next_angle(&f, 500_000), i64::MAX);
    let g = orbit(-100_000, (0, 0), (100_000, 100_000), i64::MIN);
    assert_eq!(next_angle(&g, 500_000), i64::MIN);
}

#[test]
fn collide_requires_positive_overlap() {
    let size = Vec2 { x: 100_000, y: 100_000 };
    let a = Vec2 { x: 0, y: 0 };
    // clearly overlapping
    assert!(collide(a, size, Vec2 { x: 50_000, y: 50_000 }, size));
    // touching edges only: not an overlap
    assert!(!collide(a, size, Vec2 { x: 100_000, y: 0 }, size));
    // one thousandth of a pixel inside
    assert!(collide(a, size, Vec2 { x: 99_999, y: 0 }, size));
    // disjoint
    assert!(!collide(a, size, Vec2 { x: 300_000, y: 0 }, size));
}
