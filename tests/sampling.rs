use sdf_meshing::geometry::{Extent2i, Extent3i, Point2i, Point3i};
use sdf_meshing::sampling::{sample2, sample3};

#[test]
fn sample3_reads_field_inside_domain_and_ambient_outside() {
    let domain = Extent3i::from_min_and_shape(Point3i::fill(0), Point3i::fill(4));
    let extent = Extent3i::from_min_and_shape(Point3i::fill(-1), Point3i::new(6, 5, 3));
    let field = |p: Point3i| p.x + 10 * p.y + 100 * p.z;
    let a = sample3(&field, &domain, &extent, -7);
    assert_eq!(a.extent(), extent);
    assert_eq!(a.values().len(), 90);
    assert_eq!(*a.get(&Point3i::new(1, 2, 0)), 21);
    assert_eq!(*a.get(&Point3i::new(3, 3, 1)), 133);
    assert_eq!(*a.get(&Point3i::new(-1, 0, 0)), -7);
    assert_eq!(*a.get(&Point3i::new(4, 3, 1)), -7);
    assert_eq!(a.values()[0], -7);
    let v = a.into_values();
    assert_eq!(v[1 + 6 * (1 + 5 * 1)], 0);
}

#[test]
fn sample3_layout_is_x_fastest() {
    let extent = Extent3i::from_min_and_shape(Point3i::new(2, 3, 4), Point3i::new(2, 2, 2));
    let field = |p: Point3i| (p.x, p.y, p.z);
    let a = sample3(&field, &extent, &extent, (0, 0, 0));
    assert_eq!(
        a.values().clone(),
        vec![(2, 3, 4), (3, 3, 4), (2, 4, 4), (3, 4, 4), (2, 3, 5), (3, 3, 5), (2, 4, 5), (3, 4, 5)]
    );
}

#[test]
fn sample3_sphere_field_signs() {
    let domain = Extent3i::from_min_and_shape(Point3i::fill(-50), Point3i::fill(100));
    let extent = Extent3i::from_min_and_shape(Point3i::fill(-1), Point3i::fill(18));
    let sphere = |p: Point3i| {
        let (x, y, z) = (p.x as f32, p.y as f32, p.z as f32);
        (x * x + y * y + z * z).sqrt() - 10.0
    };
    let a = sample3(&sphere, &domain, &extent, f32::MAX);
    assert_eq!(*a.get(&Point3i::fill(0)), -10.0);
    assert_eq!(*a.get(&Point3i::new(10, 0, 0)), 0.0);
    assert!(*a.get(&Point3i::new(16, 0, 0)) > 0.0);
}

#[test]
fn sample2_heights_and_ambient() {
    let domain = Extent2i::from_min_and_shape(Point2i::fill(-50), Point2i::fill(100));
    let extent = Extent2i::from_min_and_shape(Point2i::fill(47), Point2i::fill(5));
    let height = |p: Point2i| p.x * 1000 + p.y;
    let a = sample2(&height, &domain, &extent, 0);
    assert_eq!(a.values().len(), 25);
    assert_eq!(*a.get(&Point2i::new(49, 48)), 49048);
    assert_eq!(*a.get(&Point2i::new(50, 48)), 0);
    assert_eq!(*a.get(&Point2i::new(48, 51)), 0);
    assert_eq!(a.extent(), extent);
    assert_eq!(a.into_values()[5 * 1 + 2], 49048);
}

#[test]
fn sample_empty_extent() {
    let extent = Extent2i::from_min_and_shape(Point2i::fill(3), Point2i::new(0, 7));
    let a = sample2(&|p: Point2i| p.x, &extent, &extent, 0);
    assert!(a.values().is_empty());
}
