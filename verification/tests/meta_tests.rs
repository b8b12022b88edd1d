use naturalneighbor3d::meta::version_info;

#[test]
fn version_triples() {
    assert_eq!(version_info("0.1.0"), (0, 1, 0));
    assert_eq!(version_info("1.4.2"), (1, 4, 2));
    assert_eq!(version_info("12.0.7"), (12, 0, 7));
}

#[test]
fn version_missing_or_bad_pieces_read_as_zero() {
    assert_eq!(version_info("3"), (3, 0, 0));
    assert_eq!(version_info(""), (0, 0, 0));
    assert_eq!(version_info("1.x.2"), (1, 0, 2));
    assert_eq!(version_info("1.2.3-beta"), (1, 2, 0));
    assert_eq!(version_info("1..3"), (1, 0, 3));
    assert_eq!(version_info("+2.+3.4.5"), (2, 3, 4));
    assert_eq!(version_info("+.1.2"), (0, 1, 2));
    assert_eq!(version_info("4294967295.4294967296.7"), (4294967295, 0, 7));
}
