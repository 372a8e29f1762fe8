use rust_invaders::geometry::{scaled, Point, WinSize, ONE};

#[test]
fn one_is_a_thousand() {
    assert_eq!(ONE, 1000);
}

#[test]
fn scaled_halves_a_size() {
    assert_eq!(scaled(72 * ONE, 500), 36_000);
    assert_eq!(scaled(75 * ONE, 500), 37_500);
}

#[test]
fn scaled_by_one_keeps_the_value() {
    assert_eq!(scaled(12_345, ONE), 12_345);
    assert_eq!(scaled(-12_345, ONE), -12_345);
}

#[test]
fn scaled_rounds_toward_zero() {
    assert_eq!(scaled(3, 500), 1);
    assert_eq!(scaled(-3, 500), -1);
    assert_eq!(scaled(1, 999), 0);
    assert_eq!(scaled(-1, 999), 0);
}

#[test]
fn scaled_takes_the_largest_values() {
    assert_eq!(scaled(i32::MAX, i32::MAX), 4_611_686_014_132_420);
    assert_eq!(scaled(i32::MIN, i32::MIN), 4_611_686_018_427_387);
    assert_eq!(scaled(i32::MIN, i32::MAX), -4_611_686_016_279_904);
}

#[test]
fn points_and_windows_compare_by_field() {
    assert_eq!(Point { x: 1, y: 2 }, Point { x: 1, y: 2 });
    assert_ne!(Point { x: 1, y: 2 }, Point { x: 2, y: 1 });
    assert_eq!(WinSize { w: 598 * ONE, h: 676 * ONE }, WinSize { w: 598_000, h: 676_000 });
}
