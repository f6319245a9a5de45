use dot_grid::numeric::{floor_div, isqrt};

#[test]
fn isqrt_of_small_numbers() {
    let expected: [u64; 17] = [0, 1, 1, 1, 2, 2, 2, 2, 2, 3, 3, 3, 3, 3, 3, 3, 4];
    for (n, root) in expected.iter().enumerate() {
        assert_eq!(isqrt(n as u128), *root, "isqrt({})", n);
    }
}

#[test]
fn isqrt_of_squares_and_their_neighbours() {
    for r in [1u128, 2, 3, 10, 255, 256, 65_535, 65_536, 1_000_000, 4_294_967_295, 4_294_967_296] {
        assert_eq!(isqrt(r * r), r as u64);
        assert_eq!(isqrt(r * r - 1), (r - 1) as u64);
        assert_eq!(isqrt(r * r + 2 * r), r as u64);
        assert_eq!(isqrt(r * r + 2 * r + 1), (r + 1) as u64);
    }
}

#[test]
fn isqrt_of_the_largest_numbers() {
    let top: u128 = u64::MAX as u128;
    assert_eq!(isqrt(u128::MAX), u64::MAX);
    assert_eq!(isqrt(top * top), u64::MAX);
    assert_eq!(isqrt(top * top - 1), u64::MAX - 1);
}

#[test]
fn isqrt_is_the_largest_root_that_fits() {
    let mut n: u128 = 1;
    while n < u128::MAX / 7 {
        let r = isqrt(n) as u128;
        assert!(r * r <= n);
        assert!((r + 1) * (r + 1) > n);
        n = n * 7 + 3;
    }
}

#[test]
fn floor_div_rounds_down() {
    assert_eq!(floor_div(7, 2), 3);
    assert_eq!(floor_div(8, 2), 4);
    assert_eq!(floor_div(0, 5), 0);
    assert_eq!(floor_div(-1, 2), -1);
    assert_eq!(floor_div(-7, 2), -4);
    assert_eq!(floor_div(-8, 2), -4);
    assert_eq!(floor_div(-9, 2), -5);
    assert_eq!(floor_div(-1, 13), -1);
    assert_eq!(floor_div(-13, 13), -1);
    assert_eq!(floor_div(-14, 13), -2);
    assert_eq!(floor_div(-33_280, 13), -2_560);
}

#[test]
fn floor_div_at_the_ends_of_the_range() {
    assert_eq!(floor_div(i64::MIN, 1), i64::MIN);
    assert_eq!(floor_div(i64::MAX, 1), i64::MAX);
    assert_eq!(floor_div(i64::MIN, i64::MAX), -2);
    assert_eq!(floor_div(i64::MIN, 2), i64::MIN / 2);
    assert_eq!(floor_div(i64::MIN + 1, 2), i64::MIN / 2);
    assert_eq!(floor_div(i64::MAX, i64::MAX), 1);
    assert_eq!(floor_div(-1, i64::MAX), -1);
}

#[test]
fn floor_div_agrees_with_euclid_for_positive_divisors() {
    for n in -50i64..=50 {
        for d in 1i64..=9 {
            assert_eq!(floor_div(n, d), n.div_euclid(d), "{} / {}", n, d);
        }
    }
}
