use molesim::{Molecule, Vec2};

fn molecule(id: usize, px: i64, py: i64, vx: i64, vy: i64) -> Molecule {
    Molecule { position: Vec2 { x: px, y: py }, velocity: Vec2 { x: vx, y: vy }, id }
}

fn dist_sq(a: &Molecule, b: &Molecule) -> i64 {
    let dx = a.position.x - b.position.x;
    let dy = a.position.y - b.position.y;
    dx * dx + dy * dy
}

#[test]
fn head_on_pair_is_pushed_apart_and_swaps_velocity() {
    let a = molecule(0, 100_000, 100_000, 1_000, 0);
    let b = molecule(1, 108_000, 100_000, -1_000, 0);
    let snapshot = vec![a, b];

    let mut first = a;
    first.collide(&snapshot);
    assert_eq!(first, molecule(0, 99_000, 100_000, -1_000, 0));

    let mut second = b;
    second.collide(&snapshot);
    assert_eq!(second, molecule(1, 109_000, 100_000, 1_000, 0));
}

#[test]
fn response_is_one_sided() {
    let a = molecule(0, 100_000, 100_000, 1_000, 0);
    let b = molecule(1, 108_000, 100_000, -1_000, 0);
    let snapshot = vec![a, b];
    let mut first = a;
    first.collide(&snapshot);
    assert_eq!(snapshot[1], b);
    assert_eq!(snapshot[0], a);
}

#[test]
fn molecule_does_not_collide_with_itself() {
    let a = molecule(3, 100_000, 100_000, 1_000, 500);
    let near_twin = molecule(3, 104_000, 100_000, -1_000, 0);
    let mut m = a;
    m.collide(&vec![a, near_twin]);
    assert_eq!(m, a);
}

#[test]
fn coincident_molecules_do_not_act_on_each_other() {
    let a = molecule(0, 250_000, 250_000, 1_000, 2_000);
    let b = molecule(1, 250_000, 250_000, -3_000, 500);
    let snapshot = vec![a, b];
    let mut first = a;
    first.collide(&snapshot);
    assert_eq!(first, a);
    let mut second = b;
    second.collide(&snapshot);
    assert_eq!(second, b);
}

#[test]
fn molecules_one_grid_step_apart_do_collide() {
    let a = molecule(0, 250_000, 250_000, 1_000, 2_000);
    let b = molecule(1, 250_001, 250_000, -3_000, 500);
    let mut first = a;
    first.collide(&vec![b]);
    assert_eq!(first, molecule(0, 245_001, 250_000, -3_000, 2_000));
}

#[test]
fn distant_molecules_do_not_collide() {
    let a = molecule(0, 100_000, 100_000, 1_000, 0);
    let b = molecule(1, 110_001, 100_000, -1_000, 0);
    let c = molecule(2, 107_072, 107_072, -1_000, 0);
    let d = molecule(3, 100_000, -9_000_000_000_000_000, 0, 0);
    let mut m = a;
    m.collide(&vec![b, c, d]);
    assert_eq!(m, a);
}

#[test]
fn touching_molecules_swap_velocity_without_moving() {
    let a = molecule(0, 100_000, 100_000, 1_000, 300);
    let b = molecule(1, 110_000, 100_000, -1_000, 0);
    let mut m = a;
    m.collide(&vec![b]);
    assert_eq!(m, molecule(0, 100_000, 100_000, -1_000, 300));
}

#[test]
fn oblique_collision_is_rounded_toward_zero() {
    let c = molecule(0, 100_000, 100_000, 1_500, -700);
    let d = molecule(1, 103_000, 104_000, -200, 900);
    let mut first = c;
    first.collide(&vec![d]);
    assert_eq!(first, molecule(0, 98_500, 98_000, 1_656, -492));
    let mut second = d;
    second.collide(&vec![c]);
    assert_eq!(second, molecule(1, 104_500, 106_000, -356, 692));
}

#[test]
fn correction_moves_half_the_overlap_along_the_line_of_centres() {
    let c = molecule(0, 100_000, 100_000, 0, 0);
    let d = molecule(1, 103_000, 104_000, 0, 0);
    let before = dist_sq(&c, &d);
    let mut m = c;
    m.collide(&vec![d]);
    assert_eq!(before, 5_000 * 5_000);
    assert_eq!(dist_sq(&m, &d), 7_500 * 7_500);
    assert!(dist_sq(&m, &d) >= before);
    assert!(dist_sq(&m, &d) <= 10_000 * 10_000);
}

#[test]
fn correction_never_brings_molecules_closer() {
    let mut dx: i64 = -10_000;
    while dx <= 10_000 {
        let mut dy: i64 = -10_000;
        while dy <= 10_000 {
            let a = molecule(0, 400_000, 400_000, 100, -100);
            let b = molecule(1, 400_000 + dx, 400_000 + dy, -50, 75);
            let before = dist_sq(&a, &b);
            let mut m = a;
            m.collide(&vec![b]);
            if before >= 1 && before <= 100_000_000 {
                assert!(dist_sq(&m, &b) >= before);
                assert!(dist_sq(&m, &b) <= 100_000_000);
            } else {
                assert_eq!(m, a);
            }
            dy += 1_237;
        }
        dx += 1_237;
    }
}

#[test]
fn collision_hands_on_no_more_speed_than_both_had() {
    let a = molecule(0, 400_000, 400_000, 2_345, -1_234);
    let b = molecule(1, 402_500, 396_100, -777, 3_210);
    let mut m = a;
    m.collide(&vec![b]);
    let got = m.velocity.x * m.velocity.x + m.velocity.y * m.velocity.y;
    let had = 2_345 * 2_345 + 1_234 * 1_234 + 777 * 777 + 3_210 * 3_210;
    assert!(got <= had);
    assert_ne!(m.velocity, a.velocity);
}

#[test]
fn overlaps_accumulate_in_snapshot_order() {
    let c = molecule(0, 100_000, 100_000, 1_500, -700);
    let d = molecule(1, 103_000, 104_000, -200, 900);
    let e = molecule(2, 97_000, 99_000, 300, 300);

    let mut forward = c;
    forward.collide(&vec![c, d, e]);
    assert_eq!(forward, molecule(0, 101_910, 95_727, 351, 377));

    let mut backward = c;
    backward.collide(&vec![e, d]);
    assert_eq!(backward, molecule(0, 103_536, 97_558, 559, 963));
}

#[test]
fn empty_snapshot_changes_nothing() {
    let a = molecule(0, 100_000, 100_000, 1_000, 0);
    let mut m = a;
    m.collide(&Vec::new());
    assert_eq!(m, a);
}

#[test]
fn collision_at_the_limits_does_not_overflow() {
    let p: i64 = 0x200_0000_0000;
    let v: i64 = 0x20_0000;
    let a = molecule(0, p, -p, v, -v);
    let mut others = Vec::new();
    let mut k: usize = 1;
    while k <= 64 {
        others.push(molecule(k, p - 3_000, -p + 4_000, -v, v));
        k += 1;
    }
    let mut m = a;
    m.collide(&others);
    assert_eq!(m.id, 0);
    assert!(m.position.x >= p && m.position.y <= -p);
}
