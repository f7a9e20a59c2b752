use multipass::fixed::{fx_abs, fx_clamp, fx_min, fx_tdiv, isqrt, smoothmin};

#[test]
fn isqrt_exact_values() {
    assert_eq!(isqrt(0), 0);
    assert_eq!(isqrt(1), 1);
    assert_eq!(isqrt(8), 2);
    assert_eq!(isqrt(9), 3);
    assert_eq!(isqrt(10), 3);
    assert_eq!(isqrt(1_000_000_000_000_000_000), 1_000_000_000);
    assert_eq!(isqrt(49_000_000), 7_000);
}

#[test]
fn tdiv_truncates_toward_zero() {
    assert_eq!(fx_tdiv(7, 2), 3);
    assert_eq!(fx_tdiv(-7, 2), -3);
    assert_eq!(fx_tdiv(0, 5), 0);
    assert_eq!(fx_tdiv(-1, 1000), 0);
}

#[test]
fn clamp_and_abs() {
    assert_eq!(fx_clamp(5, 0, 3), 3);
    assert_eq!(fx_clamp(-5, 0, 3), 0);
    assert_eq!(fx_clamp(2, 0, 3), 2);
    assert_eq!(fx_abs(-9), 9);
    assert_eq!(fx_abs(9), 9);
}

#[test]
fn smoothmin_exact_blend_value() {
    // equal operands dip by exactly k/4: k=1000 gives -250
    assert_eq!(smoothmin(0, 0, 1000), -250);
    // the dip formula: min - (k - |a-b|)^2 / (4k)
    assert_eq!(smoothmin(100, 300, 1000), 100 - (800 * 800) / 4000);
}

#[test]
fn smoothmin_never_exceeds_min() {
    let cases: [(i64, i64, i64); 6] = [
        (0, 0, 1),
        (-500, 700, 300),
        (1000, -1000, 999),
        (42, 41, 1000),
        (7, 7, 1_000_000),
        (123_456, -654_321, 500_000),
    ];
    for &(a, b, k) in cases.iter() {
        let m = fx_min(a, b);
        let s = smoothmin(a, b, k);
        assert!(s <= m);
        // within a quarter blend radius of the true minimum
        assert!(m - s <= k / 4);
    }
}

#[test]
fn smoothmin_is_monotonic_in_the_blend_radius() {
    // a wider blend radius dips at least as deep
    assert!(smoothmin(0, 0, 1000) <= smoothmin(0, 0, 400));
    assert_eq!(smoothmin(0, 0, 400), -100);
    let mut prev = smoothmin(100, 250, 1);
    for k in 1..40 {
        let cur = smoothmin(100, 250, k * 25);
        assert!(cur <= prev);
        prev = cur;
    }
}

#[test]
fn smoothmin_reduces_to_min_for_small_blend() {
    // once the operands are at least k apart the blend is exact,
    // so the combinator tends to min as the radius tends to zero
    assert_eq!(smoothmin(300, 320, 5), 300);
    assert_eq!(smoothmin(320, 300, 5), 300);
    assert_eq!(smoothmin(-10, 500, 100), -10);
    assert_eq!(smoothmin(0, 1, 1), 0);
}
