use molesim::walls::deflect;
use molesim::{Molecule, Vec2, HEIGHT, M, MOLECULE_RADIUS, WIDTH};

fn molecule(px: i64, py: i64, vx: i64, vy: i64) -> Molecule {
    Molecule { position: Vec2 { x: px, y: py }, velocity: Vec2 { x: vx, y: vy }, id: 7 }
}

fn norm_sq(v: Vec2) -> i64 {
    v.x * v.x + v.y * v.y
}

#[test]
fn free_flight_takes_the_tentative_position() {
    let mut m = molecule(100_000, 100_000, 1_000, -250);
    m.make_move();
    assert_eq!(m, molecule(101_000, 99_750, 1_000, -250));
}

#[test]
fn left_wall_mirrors_at_one_radius() {
    let mut m = molecule(6_000, 100_000, -3_000, 500);
    m.make_move();
    assert_eq!(m, molecule(7_000, 100_500, 3_000, 500));
}

#[test]
fn left_wall_acts_on_touch() {
    let mut m = molecule(6_000, 100_000, -1_000, 0);
    m.make_move();
    assert_eq!(m, molecule(5_000, 100_000, 1_000, 0));
}

#[test]
fn right_wall_mirrors_at_one_radius() {
    let mut m = molecule(1_914_000, 100_000, 3_000, -500);
    m.make_move();
    assert_eq!(m, molecule(1_913_000, 99_500, -3_000, -500));
}

#[test]
fn right_wall_acts_on_touch() {
    let mut m = molecule(1_914_000, 100_000, 1_000, 0);
    m.make_move();
    assert_eq!(m, molecule(1_915_000, 100_000, -1_000, 0));
}

#[test]
fn top_wall_mirrors_at_one_radius() {
    let mut m = molecule(100_000, 6_000, 700, -3_000);
    m.make_move();
    assert_eq!(m, molecule(100_700, 7_000, 700, 3_000));
}

#[test]
fn deflector_turns_a_fast_molecule_and_adds_drift() {
    let mut m = molecule(100_000, 1_074_000, 5_000, 3_000);
    m.make_move();
    assert_eq!(m, molecule(105_000, 1_076_000, 7_475, -2_004));
}

#[test]
fn deflector_turns_a_slow_molecule_and_takes_drift() {
    let mut m = molecule(100_000, 1_074_000, 1_000, 3_000);
    m.make_move();
    assert_eq!(m, molecule(101_000, 1_076_000, -1_381, -3_101));
}

#[test]
fn deflector_mirrors_the_height_before_the_step() {
    let mut m = molecule(100_000, 1_074_000, 5_000, 3_000);
    m.make_move();
    assert_eq!(m.position.y, 2 * (HEIGHT - MOLECULE_RADIUS) - 1_074_000);
    let mut far = molecule(100_000, 1_074_000, 5_000, 9_000);
    far.make_move();
    assert_eq!(far.position.y, 1_076_000);
    assert_eq!(far.position.x, 105_000);
}

#[test]
fn top_wall_after_left_wall_restores_the_tentative_abscissa() {
    let mut m = molecule(6_000, 6_000, -3_000, -3_000);
    m.make_move();
    assert_eq!(m, molecule(3_000, 7_000, 3_000, 3_000));
}

#[test]
fn deflector_after_left_wall_sees_the_turned_velocity() {
    let mut m = molecule(6_000, 1_074_000, -3_000, 3_000);
    m.make_move();
    assert_eq!(m, molecule(3_000, 1_076_000, 4_916, -3_081));
}

#[test]
fn deflector_after_right_wall_sees_the_turned_velocity() {
    let mut m = molecule(1_914_000, 1_074_000, 5_000, 3_000);
    m.make_move();
    assert_eq!(m, molecule(1_919_000, 1_076_000, -5_483, -4_675));
}

#[test]
fn mirrored_molecule_stays_inside() {
    let mut m = molecule(MOLECULE_RADIUS, 500_000, -(WIDTH - 2 * MOLECULE_RADIUS), 0);
    m.make_move();
    assert_eq!(m.position.x, WIDTH - MOLECULE_RADIUS);
    let mut n = molecule(500_000, MOLECULE_RADIUS, 0, -(HEIGHT - 2 * MOLECULE_RADIUS) + 1);
    n.make_move();
    assert!(MOLECULE_RADIUS <= n.position.y && n.position.y <= HEIGHT - MOLECULE_RADIUS);
    assert_eq!(n.position.y, HEIGHT - MOLECULE_RADIUS - 1);
}

#[test]
fn mirroring_walls_keep_the_speed() {
    let starts = [
        molecule(6_000, 100_000, -3_000, 500),
        molecule(1_914_000, 100_000, 3_000, -500),
        molecule(100_000, 6_000, 700, -3_000),
        molecule(6_000, 6_000, -3_000, -3_000),
        molecule(100_000, 100_000, 1_234, 4_321),
    ];
    for start in starts {
        let mut m = start;
        m.make_move();
        assert_eq!(norm_sq(m.velocity), norm_sq(start.velocity));
        assert_eq!(m.velocity.x.abs(), start.velocity.x.abs());
        assert_eq!(m.velocity.y.abs(), start.velocity.y.abs());
    }
}

#[test]
fn deflect_in_the_fast_branch() {
    assert_eq!(deflect(Vec2 { x: 5_000, y: 3_000 }), Vec2 { x: 7_475, y: -2_004 });
    assert_eq!(deflect(Vec2 { x: 2_001, y: 1 }), Vec2 { x: 3_879, y: -687 });
}

#[test]
fn deflect_along_the_panel_image() {
    assert_eq!(deflect(Vec2 { x: 4_000, y: 1_000 }), Vec2 { x: 6_123, y: 0 });
}

#[test]
fn deflect_changes_the_speed_by_no_more_than_the_drift() {
    let cases = [
        Vec2 { x: 5_000, y: 3_000 },
        Vec2 { x: 1_000, y: 3_000 },
        Vec2 { x: -3_000, y: 2_000 },
        Vec2 { x: 2_001, y: 1 },
        Vec2 { x: 0x10_0000, y: -0x10_0000 },
    ];
    for v in cases {
        let out = deflect(v);
        let before = molesim::fixed::isqrt((v.x * v.x + v.y * v.y) as u64) as i64;
        let after = molesim::fixed::isqrt((out.x * out.x + out.y * out.y) as u64) as i64;
        assert!(after <= before + M);
        assert!(before <= after + M + 2);
    }
}

#[test]
fn deflect_in_the_slow_branch() {
    assert_eq!(deflect(Vec2 { x: 1_000, y: 3_000 }), Vec2 { x: -1_381, y: -3_101 });
    assert_eq!(deflect(Vec2 { x: 2_000, y: 4_000 }), Vec2 { x: -1_085, y: -4_377 });
    assert_eq!(deflect(Vec2 { x: -3_000, y: 2_000 }), Vec2 { x: -3_524, y: -3_267 });
}

#[test]
fn deflect_of_a_molecule_at_rest_is_the_drift() {
    assert_eq!(deflect(Vec2 { x: 0, y: 0 }), Vec2 { x: -M, y: 0 });
}

#[test]
fn drift_is_added_after_the_speed_is_restored() {
    let fast = Vec2 { x: 5_000, y: 3_000 };
    let out = deflect(fast);
    let bare = Vec2 { x: out.x - M, y: out.y };
    assert!(norm_sq(bare) <= norm_sq(fast));
    assert!(norm_sq(fast) < (bare.x.abs() + 1) * (bare.x.abs() + 1)
        + (bare.y.abs() + 1) * (bare.y.abs() + 1));

    let slow = Vec2 { x: 1_000, y: 3_000 };
    let out = deflect(slow);
    let bare = Vec2 { x: out.x + M, y: out.y };
    assert!(norm_sq(bare) <= norm_sq(slow));
    assert!(norm_sq(slow) < (bare.x.abs() + 1) * (bare.x.abs() + 1)
        + (bare.y.abs() + 1) * (bare.y.abs() + 1));
}

#[test]
fn deflect_at_the_limits_does_not_overflow() {
    let limit: i64 = 0x10_0000;
    let corners = [
        Vec2 { x: limit, y: limit },
        Vec2 { x: limit, y: -limit },
        Vec2 { x: -limit, y: limit },
        Vec2 { x: -limit, y: -limit },
    ];
    for v in corners {
        let out = deflect(v);
        let bare_x = if v.x - M > 0 { out.x - M } else { out.x + M };
        assert!(bare_x * bare_x + out.y * out.y <= norm_sq(v));
    }
}

#[test]
fn range_test_tells_the_limits() {
    assert!(molecule(0x100_0000_0000, -0x100_0000_0000, 0x10_0000, -0x10_0000).in_range());
    assert!(!molecule(0x100_0000_0001, 0, 0, 0).in_range());
    assert!(!molecule(0, -0x100_0000_0001, 0, 0).in_range());
    assert!(!molecule(0, 0, 0x10_0001, 0).in_range());
    assert!(!molecule(0, 0, 0, -0x10_0001).in_range());
}
