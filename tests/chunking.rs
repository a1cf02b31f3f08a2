use sdf_meshing::chunks::{
    chunk_keys_for_extent2, chunk_keys_for_extent3, chunk_min_containing, chunk_mins_covering,
    extent_for_chunk3,
};
use sdf_meshing::drivers::{plan_heightfield_chunks, plan_volumetric_chunks};
use sdf_meshing::geometry::{Extent2i, Extent3i, Point2i, Point3i};

#[test]
fn chunk_min_rounds_toward_negative_infinity() {
    assert_eq!(chunk_min_containing(5, 16), 0);
    assert_eq!(chunk_min_containing(16, 16), 16);
    assert_eq!(chunk_min_containing(-1, 16), -16);
    assert_eq!(chunk_min_containing(-50, 16), -64);
    assert_eq!(chunk_min_containing(-48, 16), -48);
    assert_eq!(chunk_min_containing(7, 3), 6);
}

#[test]
fn axis_chunks_cover_interval() {
    let mins = chunk_mins_covering(-50, 100, 16);
    assert_eq!(mins, vec![-64, -48, -32, -16, 0, 16, 32, 48]);
    assert!(chunk_mins_covering(0, 0, 16).is_empty());
    assert_eq!(chunk_mins_covering(0, 16, 16), vec![0]);
    assert_eq!(chunk_mins_covering(0, 17, 16), vec![0, 16]);
}

#[test]
fn volumetric_keys_cover_domain_once() {
    let domain = Extent3i::from_min_and_shape(Point3i::fill(-50), Point3i::fill(100));
    let keys = chunk_keys_for_extent3(&domain, &Point3i::fill(16));
    assert_eq!(keys.len(), 512);
    let mut sorted = keys.clone();
    sorted.sort_by_key(|k| (k.x, k.y, k.z));
    sorted.dedup();
    assert_eq!(sorted.len(), 512);
    assert!(keys.contains(&Point3i::fill(-64)));
    assert!(keys.contains(&Point3i::fill(48)));
    assert!(!keys.contains(&Point3i::fill(64)));
    for p in [Point3i::new(-50, 0, 49), Point3i::new(17, -33, 3)] {
        assert!(keys.iter().any(|k| extent_for_chunk3(*k, Point3i::fill(16)).contains(&p)));
    }
}

#[test]
fn heightfield_keys_cover_domain_once() {
    let domain = Extent2i::from_min_and_shape(Point2i::fill(-50), Point2i::fill(100));
    let keys = chunk_keys_for_extent2(&domain, &Point2i::fill(16));
    assert_eq!(keys.len(), 64);
    let mut sorted = keys.clone();
    sorted.sort_by_key(|k| (k.x, k.y));
    sorted.dedup();
    assert_eq!(sorted.len(), 64);
    assert!(keys.contains(&Point2i::new(-64, 48)));
}

#[test]
fn empty_domain_has_no_chunks() {
    let domain = Extent3i::from_min_and_shape(Point3i::fill(0), Point3i::new(4, 0, 4));
    assert!(chunk_keys_for_extent3(&domain, &Point3i::fill(16)).is_empty());
}

#[test]
fn volumetric_plan_pads_each_chunk() {
    let domain = Extent3i::from_min_and_shape(Point3i::fill(-50), Point3i::fill(100));
    let plans = plan_volumetric_chunks(&domain, &Point3i::fill(16));
    assert_eq!(plans.len(), 512);
    for plan in &plans {
        assert_eq!(plan.sampling_extent.minimum, Point3i::new(plan.key.x - 1, plan.key.y - 1, plan.key.z - 1));
        assert_eq!(plan.sampling_extent.shape, Point3i::fill(18));
    }
}

#[test]
fn heightfield_plan_stays_inside_domain() {
    let domain = Extent2i::from_min_and_shape(Point2i::fill(-50), Point2i::fill(100));
    let plans = plan_heightfield_chunks(&domain, &Point2i::fill(16));
    assert_eq!(plans.len(), 64);
    for plan in &plans {
        let e = plan.sampling_extent;
        assert!(e.minimum.x >= -50 && e.minimum.y >= -50);
        assert!(e.minimum.x + e.shape.x <= 50 && e.minimum.y + e.shape.y <= 50);
        assert!(e.shape.x > 0 && e.shape.y > 0);
    }
    let inner = plans.iter().find(|p| p.key == Point2i::new(0, 16)).unwrap();
    assert_eq!(inner.sampling_extent.minimum, Point2i::new(-1, 15));
    assert_eq!(inner.sampling_extent.shape, Point2i::fill(19));
}
