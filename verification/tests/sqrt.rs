use td_alphabet::sqrt::integer_sqrt;

#[test]
fn integer_sqrt_of_small_numbers() {
    let expected: [(u128, u64); 12] = [
        (0, 0),
        (1, 1),
        (2, 1),
        (3, 1),
        (4, 2),
        (8, 2),
        (9, 3),
        (15, 3),
        (16, 4),
        (17, 4),
        (99, 9),
        (100, 10),
    ];
    for (n, r) in expected {
        assert_eq!(integer_sqrt(n), r, "square root of {}", n);
    }
}

#[test]
fn integer_sqrt_of_a_large_square() {
    assert_eq!(integer_sqrt(100_000_000_000_000_000_000), 10_000_000_000);
    assert_eq!(integer_sqrt(99_999_999_999_999_999_999), 9_999_999_999);
    assert_eq!(integer_sqrt(100_000_000_000_000_000_001), 10_000_000_000);
}

#[test]
fn integer_sqrt_rounds_down() {
    // 2 * 10^18 has the root 1414213562.37...
    assert_eq!(integer_sqrt(2_000_000_000_000_000_000), 1_414_213_562);
}

#[test]
fn integer_sqrt_of_the_largest_number() {
    assert_eq!(integer_sqrt(u128::MAX), u64::MAX);
    let m: u128 = u64::MAX as u128;
    assert_eq!(integer_sqrt(m * m), u64::MAX);
    assert_eq!(integer_sqrt(m * m - 1), u64::MAX - 1);
}

#[test]
fn integer_sqrt_is_the_rounded_down_root_on_a_range() {
    for n in 0u128..5000 {
        let r = integer_sqrt(n) as u128;
        assert!(r * r <= n && n < (r + 1) * (r + 1), "n = {}", n);
    }
}
