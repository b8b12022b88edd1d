use naturalneighbor3d::algorithms::geometry::{BoundingBox, Point3D};

#[test]
fn geometry_test_point_creation() {
    let p1 = Point3D::new(1.0, 2.0, 3.0);
    assert_eq!(p1.x(), 1.0);
    assert_eq!(p1.y(), 2.0);
    assert_eq!(p1.z(), 3.0);

    let p2 = Point3D::from([1.0, 2.0, 3.0]);
    assert_eq!(p1, p2);

    let p3 = Point3D::from((1.0, 2.0, 3.0));
    assert_eq!(p1, p3);

    let origin = Point3D::<f64>::origin();
    assert_eq!(origin.x(), 0.0);
    assert_eq!(origin.y(), 0.0);
    assert_eq!(origin.z(), 0.0);
}

#[test]
fn integration_tests_test_point_creation() {
    let p1 = Point3D::new(1.0, 2.0, 3.0);
    assert_eq!(p1.x(), 1.0);
    assert_eq!(p1.y(), 2.0);
    assert_eq!(p1.z(), 3.0);

    let p2 = Point3D::from([1.0, 2.0, 3.0]);
    assert_eq!(p1, p2);

    let p3 = Point3D::from((1.0, 2.0, 3.0));
    assert_eq!(p1, p3);

    let origin = Point3D::<f64>::origin();
    assert_eq!(origin.x(), 0.0);
    assert_eq!(origin.y(), 0.0);
    assert_eq!(origin.z(), 0.0);
}

#[test]
fn test_vector_operations() {
    let p1 = Point3D::new(1.0, 2.0, 3.0);
    let p2 = Point3D::new(4.0, 5.0, 6.0);

    let sum = p1.add(&p2);
    assert_eq!(sum, Point3D::new(5.0, 7.0, 9.0));

    let diff = p2.subtract(&p1);
    assert_eq!(diff, Point3D::new(3.0, 3.0, 3.0));

    let scaled = p1.scale(2.0);
    assert_eq!(scaled, Point3D::new(2.0, 4.0, 6.0));

    let dot = p1.dot(&p2);
    assert_eq!(dot, 32.0); // 1*4 + 2*5 + 3*6 = 32
}

#[test]
fn geometry_test_indexing() {
    let mut p = Point3D::new(1.0, 2.0, 3.0);
    assert_eq!(p[0], 1.0);
    assert_eq!(p[1], 2.0);
    assert_eq!(p[2], 3.0);

    p[0] = 10.0;
    assert_eq!(p[0], 10.0);
    assert_eq!(p.x(), 10.0);
}

#[test]
fn integration_tests_test_indexing() {
    let mut p = Point3D::new(1.0, 2.0, 3.0);
    assert_eq!(p[0], 1.0);
    assert_eq!(p[1], 2.0);
    assert_eq!(p[2], 3.0);

    p[0] = 10.0;
    assert_eq!(p[0], 10.0);
    assert_eq!(p.x(), 10.0);
}

#[test]
fn test_point_equality() {
    let p1 = Point3D::new(1.0, 2.0, 3.0);
    let p2 = Point3D::new(1.0, 2.0, 3.0);
    let p3 = Point3D::new(1.0, 2.0, 4.0);

    assert_eq!(p1, p2);
    assert_ne!(p1, p3);
}

#[test]
fn test_conversions() {
    let point = Point3D::new(1.0, 2.0, 3.0);
    let array: [f64; 3] = point.into();
    assert_eq!(array, [1.0, 2.0, 3.0]);
}

#[test]
fn test_bounding_box() {
    let mut bbox = BoundingBox::new(Point3D::new(0.0, 0.0, 0.0), Point3D::new(10.0, 10.0, 10.0));

    // Test containment
    assert!(bbox.contains(&Point3D::new(5.0, 5.0, 5.0)));
    assert!(bbox.contains(&Point3D::new(0.0, 0.0, 0.0)));
    assert!(bbox.contains(&Point3D::new(10.0, 10.0, 10.0)));
    assert!(!bbox.contains(&Point3D::new(15.0, 5.0, 5.0)));
    assert!(!bbox.contains(&Point3D::new(-1.0, 5.0, 5.0)));

    // Test expansion
    bbox.expand(&Point3D::new(15.0, 3.0, 3.0));
    assert_eq!(bbox.max.x(), 15.0);
    assert_eq!(bbox.max.y(), 10.0);

    bbox.expand(&Point3D::new(-5.0, 3.0, 3.0));
    assert_eq!(bbox.min.x(), -5.0);

    // Test dimensions
    let dimensions = bbox.dimensions();
    assert_eq!(dimensions.x(), 20.0); // 15.0 - (-5.0)
    assert_eq!(dimensions.y(), 10.0);
    assert_eq!(dimensions.z(), 10.0);
}

#[test]
fn test_mutable_coordinates() {
    let mut point = Point3D::new(1.0, 2.0, 3.0);

    *point.x_mut() = 10.0;
    *point.y_mut() = 20.0;
    *point.z_mut() = 30.0;

    assert_eq!(point.x(), 10.0);
    assert_eq!(point.y(), 20.0);
    assert_eq!(point.z(), 30.0);
}

#[test]
fn integer_point_arithmetic() {
    let p = Point3D::new(1i64, 2, 3);
    let q = Point3D::new(4i64, 6, 3);
    assert_eq!(p.squared_distance_to(&q), 25);
    assert_eq!(q.squared_distance_to(&p), 25);
    assert_eq!(p.squared_distance_to(&p), 0);
    assert_eq!(p.dot(&q), 25);
    assert_eq!(p.add(&q), Point3D::new(5, 8, 6));
    assert_eq!(q.subtract(&p), Point3D::new(3, 4, 0));
    assert_eq!(p.scale(-2), Point3D::new(-2, -4, -6));
    assert_eq!(Point3D::<i64>::origin(), Point3D::new(0, 0, 0));
    let coords: [i64; 3] = q.into();
    assert_eq!(coords, [4, 6, 3]);
}

#[test]
fn bounding_box_expansion_per_axis() {
    let mut bbox = BoundingBox::new(Point3D::new(0i32, 0, 0), Point3D::new(5i32, 5, 5));
    // Each axis moves on its own: x grows, y stays, z shrinks.
    bbox.expand(&Point3D::new(8, 2, -4));
    assert_eq!(bbox.min, Point3D::new(0, 0, -4));
    assert_eq!(bbox.max, Point3D::new(8, 5, 5));
    assert!(bbox.contains(&Point3D::new(8, 2, -4)));
    assert!(bbox.contains(&Point3D::new(0, 5, 5)));
    assert!(!bbox.contains(&Point3D::new(0, 6, 0)));
    assert!(!bbox.contains(&Point3D::new(0, 0, -5)));
    assert_eq!(bbox.dimensions(), Point3D::new(8, 5, 9));

    let empty = BoundingBox::<i32>::empty();
    assert_eq!(empty.min, Point3D::new(0, 0, 0));
    assert_eq!(empty.max, Point3D::new(0, 0, 0));
    assert!(empty.contains(&Point3D::new(0, 0, 0)));
    assert!(!empty.contains(&Point3D::new(1, 0, 0)));
}

#[test]
fn nan_coordinates_leave_bounds_unchanged() {
    let mut bbox = BoundingBox::new(Point3D::new(0.0, 0.0, 0.0), Point3D::new(1.0, 1.0, 1.0));
    bbox.expand(&Point3D::new(f64::NAN, 2.0, -1.0));
    assert_eq!(bbox.min.x(), 0.0);
    assert_eq!(bbox.max.x(), 1.0);
    assert_eq!(bbox.max.y(), 2.0);
    assert_eq!(bbox.min.z(), -1.0);
    assert!(!bbox.contains(&Point3D::new(f64::NAN, 0.5, 0.5)));
}
