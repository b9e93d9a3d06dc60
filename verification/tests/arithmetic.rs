use molesim::fixed::{div_toward_zero, isqrt};
use molesim::vector::Vec2;

#[test]
fn isqrt_of_small_numbers() {
    assert_eq!(isqrt(0), 0);
    assert_eq!(isqrt(1), 1);
    assert_eq!(isqrt(2), 1);
    assert_eq!(isqrt(3), 1);
    assert_eq!(isqrt(4), 2);
    assert_eq!(isqrt(8), 2);
    assert_eq!(isqrt(9), 3);
}

#[test]
fn isqrt_rounds_down() {
    assert_eq!(isqrt(10_000_000), 3_162);
    assert_eq!(isqrt(99_999_999), 9_999);
    assert_eq!(isqrt(100_000_000), 10_000);
}

#[test]
fn isqrt_at_the_end_of_the_range() {
    assert_eq!(isqrt(u64::MAX), 4_294_967_295);
    assert_eq!(isqrt(4_294_967_295 * 4_294_967_295), 4_294_967_295);
    assert_eq!(isqrt(4_294_967_295 * 4_294_967_295 - 1), 4_294_967_294);
}

#[test]
fn isqrt_brackets_its_argument() {
    let mut n: u64 = 0;
    while n < 5_000 {
        let r = isqrt(n);
        assert!(r * r <= n && n < (r + 1) * (r + 1));
        n += 1;
    }
}

#[test]
fn division_rounds_toward_zero() {
    assert_eq!(div_toward_zero(7, 2), 3);
    assert_eq!(div_toward_zero(-7, 2), -3);
    assert_eq!(div_toward_zero(6, 2), 3);
    assert_eq!(div_toward_zero(-6, 2), -3);
    assert_eq!(div_toward_zero(1, 2), 0);
    assert_eq!(div_toward_zero(-1, 2), 0);
    assert_eq!(div_toward_zero(0, 5), 0);
    assert_eq!(div_toward_zero(-11, 4), -2);
}

#[test]
fn rescaling_keeps_direction_and_sets_length() {
    let v = Vec2 { x: 3, y: 4 };
    assert_eq!(v.rescaled(25_000_000), Vec2 { x: 3_000, y: 4_000 });
    let w = Vec2 { x: -3, y: 4 };
    assert_eq!(w.rescaled(10_000_000), Vec2 { x: -1_897, y: 2_529 });
}

#[test]
fn rescaling_rounds_each_coordinate_toward_zero() {
    assert_eq!(Vec2 { x: 1, y: 1 }.rescaled(10_000_000), Vec2 { x: 2_236, y: 2_236 });
    assert_eq!(Vec2 { x: -1, y: -1 }.rescaled(10_000_000), Vec2 { x: -2_236, y: -2_236 });
    assert_eq!(Vec2 { x: 0, y: -7 }.rescaled(10_000_000), Vec2 { x: 0, y: -3_162 });
    assert_eq!(Vec2 { x: 1_048_576, y: 0 }.rescaled(10_000_000), Vec2 { x: 3_162, y: 0 });
}

#[test]
fn rescaling_the_zero_vector_gives_zero() {
    assert_eq!(Vec2 { x: 0, y: 0 }.rescaled(10_000_000), Vec2 { x: 0, y: 0 });
}

#[test]
fn rescaling_at_the_limits_does_not_overflow() {
    let limit: i64 = 0x400_0000_0000;
    let len_sq: u64 = 0x800_0000_0000;
    let r = Vec2 { x: limit, y: -limit }.rescaled(len_sq);
    assert_eq!(r, Vec2 { x: 2_097_152, y: -2_097_152 });
    let s = Vec2 { x: limit, y: 0 }.rescaled(len_sq);
    assert_eq!(s, Vec2 { x: 2_965_820, y: 0 });
}

#[test]
fn rescaled_vector_is_never_longer_than_asked() {
    let len_sq: i64 = 10_000_000;
    let mut x: i64 = -9;
    while x <= 9 {
        let mut y: i64 = -9;
        while y <= 9 {
            let r = Vec2 { x, y }.rescaled(10_000_000);
            let got = r.x * r.x + r.y * r.y;
            assert!(got <= len_sq);
            if x != 0 || y != 0 {
                let more = (r.x.abs() + 1) * (r.x.abs() + 1) + (r.y.abs() + 1) * (r.y.abs() + 1);
                assert!(len_sq < more);
                assert!(r.x.signum() == x.signum() || r.x == 0);
                assert!(r.y.signum() == y.signum() || r.y == 0);
            }
            y += 1;
        }
        x += 1;
    }
}
