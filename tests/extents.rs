use sdf_meshing::geometry::{Extent2i, Extent3i, Point2i, Point3i};
use sdf_meshing::policy::{heightfield_sampling_extent, volumetric_sampling_extent};

fn cube_extent(min: i32, shape: i32) -> Extent3i {
    Extent3i::from_min_and_shape(Point3i::fill(min), Point3i::fill(shape))
}

fn square_extent(min: i32, shape: i32) -> Extent2i {
    Extent2i::from_min_and_shape(Point2i::fill(min), Point2i::fill(shape))
}

#[test]
fn padded_grows_every_face_by_n() {
    let e = Extent3i::from_min_and_shape(Point3i::new(0, 16, -32), Point3i::new(16, 8, 4));
    let p = e.padded(2);
    assert_eq!(p.minimum, Point3i::new(-2, 14, -34));
    assert_eq!(p.shape, Point3i::new(20, 12, 8));
}

#[test]
fn add_to_shape_keeps_minimum() {
    let e = square_extent(-16, 16).add_to_shape(Point2i::new(1, 2));
    assert_eq!(e.minimum, Point2i::new(-16, -16));
    assert_eq!(e.shape, Point2i::new(17, 18));
}

#[test]
fn intersection_clips_to_both() {
    let a = cube_extent(-10, 20);
    let b = Extent3i::from_min_and_shape(Point3i::new(0, -20, 5), Point3i::new(40, 15, 2));
    let c = a.intersection(&b);
    assert_eq!(c.minimum, Point3i::new(0, -10, 5));
    assert_eq!(c.shape, Point3i::new(10, 5, 2));
}

#[test]
fn contains_is_half_open() {
    let e = square_extent(-50, 100);
    assert!(e.contains(&Point2i::new(-50, -50)));
    assert!(e.contains(&Point2i::new(49, 0)));
    assert!(!e.contains(&Point2i::new(50, 0)));
    assert!(!e.contains(&Point2i::new(0, -51)));
    let d = cube_extent(i32::MAX - 1, 1);
    assert!(d.contains(&Point3i::fill(i32::MAX - 1)));
    assert!(!d.contains(&Point3i::fill(i32::MAX)));
}

#[test]
fn volumetric_padding_adds_one_cell_per_face() {
    let chunk = cube_extent(48, 16);
    let e = volumetric_sampling_extent(&chunk);
    assert_eq!(e.minimum, Point3i::fill(47));
    assert_eq!(e.shape, Point3i::fill(18));
}

#[test]
fn heightfield_padding_inside_domain() {
    let domain = square_extent(-50, 100);
    let chunk = square_extent(0, 16);
    let e = heightfield_sampling_extent(&chunk, &domain);
    assert_eq!(e.minimum, Point2i::fill(-1));
    assert_eq!(e.shape, Point2i::fill(19));
}

#[test]
fn heightfield_padding_clipped_at_domain_boundary() {
    let domain = square_extent(-50, 100);
    let high = heightfield_sampling_extent(&square_extent(48, 16), &domain);
    assert_eq!(high.minimum, Point2i::fill(47));
    assert_eq!(high.shape, Point2i::fill(3));
    let low = heightfield_sampling_extent(&square_extent(-64, 16), &domain);
    assert_eq!(low.minimum, Point2i::fill(-50));
    assert_eq!(low.shape, Point2i::fill(4));
}

#[test]
fn clipping_padded_extent_to_containing_domain_is_identity() {
    let domain = cube_extent(-50, 100);
    let padded = cube_extent(0, 16).padded(1);
    assert_eq!(padded.intersection(&domain), padded);
    let twice = padded.intersection(&domain).intersection(&domain);
    assert_eq!(twice, padded);
}
