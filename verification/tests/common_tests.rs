use naturalneighbor3d::common::clamp;

#[test]
fn test_clamp() {
    assert_eq!(clamp(5, 0, 10), 5);
    assert_eq!(clamp(-1, 0, 10), 0);
    assert_eq!(clamp(15, 0, 10), 10);
}

#[test]
fn clamp_keeps_bounds_themselves() {
    assert_eq!(clamp(0u64, 0, 10), 0);
    assert_eq!(clamp(10u64, 0, 10), 10);
}

#[test]
fn clamp_works_on_floats_too() {
    assert_eq!(clamp(2.5f64, 0.0, 1.0), 1.0);
    assert_eq!(clamp(-0.5f64, 0.0, 1.0), 0.0);
    assert_eq!(clamp(0.25f64, 0.0, 1.0), 0.25);
}
