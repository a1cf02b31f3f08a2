//! The per-chunk work of the two extraction schemes: which chunks to mesh and
//! which extent to sample for each.

use vstd::prelude::*;
use crate::chunks::{
    chunk_keys_for_extent2, chunk_keys_for_extent3, chunk_min_axis, chunkable2, chunkable3,
    extent_for_chunk2, extent_for_chunk3, has_key2, has_key3, key_overlaps2, key_overlaps3,
};
use crate::geometry::{Extent2i, Extent3i, Point2i, Point3i, in_i32};
use crate::policy::{
    heightfield_extent_spec, heightfield_sampling_extent, volumetric_extent_spec,
    volumetric_sampling_extent,
};

verus! {

/// One chunk to mesh volumetrically: its key and the extent to sample for it.
#[derive(Clone, Copy, Debug, PartialEq, Eq, Structural)]
pub struct ChunkPlan3 {
    pub key: Point3i,
    pub sampling_extent: Extent3i,
}

/// One chunk to mesh as a heightfield: its key and the extent to sample for it.
#[derive(Clone, Copy, Debug, PartialEq, Eq, Structural)]
pub struct ChunkPlan2 {
    pub key: Point2i,
    pub sampling_extent: Extent2i,
}

/// Chunks of shape `s` over `domain` can be planned without overflow.
pub open spec fn plannable3(domain: Extent3i, s: Point3i) -> bool {
    &&& chunkable3(domain, s)
    &&& in_i32(domain.minimum.x - s.x) && in_i32(domain.minimum.y - s.y) && in_i32(domain.minimum.z - s.z)
    &&& s.x + 2 <= i32::MAX && s.y + 2 <= i32::MAX && s.z + 2 <= i32::MAX
}

/// Chunks of shape `s` over `domain` can be planned without overflow.
pub open spec fn plannable2(domain: Extent2i, s: Point2i) -> bool {
    &&& chunkable2(domain, s)
    &&& in_i32(domain.minimum.x - s.x) && in_i32(domain.minimum.y - s.y)
    &&& s.x + 3 <= i32::MAX && s.y + 3 <= i32::MAX
    &&& in_i32(domain.minimum.x + domain.shape.x + s.x + 1)
    &&& in_i32(domain.minimum.y + domain.shape.y + s.y + 1)
}

/// For each chunk of shape `s` that overlaps `domain`, once each, its key and
/// the chunk's extent with a border of one cell on every face.
pub fn plan_volumetric_chunks(domain: &Extent3i, s: &Point3i) -> (r: Vec<ChunkPlan3>)
    requires
        plannable3(*domain, *s),
    ensures
        forall|i: int|
            0 <= i < r@.len() ==> key_overlaps3(#[trigger] r@[i].key, *s, *domain)
                && r@[i].sampling_extent == volumetric_extent_spec(
                Extent3i { minimum: r@[i].key, shape: *s },
            ),
        forall|i: int, j: int| 0 <= i < j < r@.len() ==> r@[i].key != r@[j].key,
        forall|p: Point3i|
            #[trigger] domain.contains_spec(p) ==> exists|i: int|
                0 <= i < r@.len() && r@[i].key == (Point3i {
                    x: chunk_min_axis(p.x as int, s.x as int) as i32,
                    y: chunk_min_axis(p.y as int, s.y as int) as i32,
                    z: chunk_min_axis(p.z as int, s.z as int) as i32,
                }),
{
    let keys = chunk_keys_for_extent3(domain, s);
    let mut r: Vec<ChunkPlan3> = Vec::new();
    let mut i: usize = 0;
    while i < keys.len()
        invariant
            plannable3(*domain, *s),
            i <= keys@.len(),
            r@.len() == i,
            forall|k: int| 0 <= k < keys@.len() ==> key_overlaps3(#[trigger] keys@[k], *s, *domain),
            forall|k: int|
                0 <= k < i ==> #[trigger] r@[k].key == keys@[k] && r@[k].sampling_extent
                    == volumetric_extent_spec(Extent3i { minimum: keys@[k], shape: *s }),
        decreases keys@.len() - i,
    {
        let key = keys[i];
        assert(key_overlaps3(keys@[i as int], *s, *domain));
        let chunk = extent_for_chunk3(key, *s);
        let sampling_extent = volumetric_sampling_extent(&chunk);
        r.push(ChunkPlan3 { key, sampling_extent });
        i = i + 1;
    }
    proof {
        assert forall|a: int, b: int| 0 <= a < b < r@.len() implies r@[a].key != r@[b].key by {
            assert(r@[a].key == keys@[a]);
            assert(r@[b].key == keys@[b]);
        }
        assert forall|p: Point3i| #[trigger] domain.contains_spec(p) implies exists|i: int|
            0 <= i < r@.len() && r@[i].key == (Point3i {
                x: chunk_min_axis(p.x as int, s.x as int) as i32,
                y: chunk_min_axis(p.y as int, s.y as int) as i32,
                z: chunk_min_axis(p.z as int, s.z as int) as i32,
            }) by {
            assert(has_key3(
                keys@,
                chunk_min_axis(p.x as int, s.x as int),
                chunk_min_axis(p.y as int, s.y as int),
                chunk_min_axis(p.z as int, s.z as int),
            ));
            let k = choose|k: int|
                0 <= k < keys@.len() && keys@[k].x == chunk_min_axis(p.x as int, s.x as int)
                    && keys@[k].y == chunk_min_axis(p.y as int, s.y as int) && keys@[k].z
                    == chunk_min_axis(p.z as int, s.z as int);
            assert(r@[k].key == keys@[k]);
        }
    }
    r
}

/// For each chunk of shape `s` that overlaps `domain`, once each, its key and
/// the heightfield sampling extent: a border of one cell, one more row and
/// column at the maximum corner, clipped to `domain`.
pub fn plan_heightfield_chunks(domain: &Extent2i, s: &Point2i) -> (r: Vec<ChunkPlan2>)
    requires
        plannable2(*domain, *s),
    ensures
        forall|i: int|
            0 <= i < r@.len() ==> key_overlaps2(#[trigger] r@[i].key, *s, *domain)
                && r@[i].sampling_extent == heightfield_extent_spec(
                Extent2i { minimum: r@[i].key, shape: *s },
                *domain,
            ),
        forall|i: int, j: int| 0 <= i < j < r@.len() ==> r@[i].key != r@[j].key,
        forall|p: Point2i|
            #[trigger] domain.contains_spec(p) ==> exists|i: int|
                0 <= i < r@.len() && r@[i].key == (Point2i {
                    x: chunk_min_axis(p.x as int, s.x as int) as i32,
                    y: chunk_min_axis(p.y as int, s.y as int) as i32,
                }),
{
    let keys = chunk_keys_for_extent2(domain, s);
    let mut r: Vec<ChunkPlan2> = Vec::new();
    let mut i: usize = 0;
    while i < keys.len()
        invariant
            plannable2(*domain, *s),
            i <= keys@.len(),
            r@.len() == i,
            forall|k: int| 0 <= k < keys@.len() ==> key_overlaps2(#[trigger] keys@[k], *s, *domain),
            forall|k: int|
                0 <= k < i ==> #[trigger] r@[k].key == keys@[k] && r@[k].sampling_extent
                    == heightfield_extent_spec(Extent2i { minimum: keys@[k], shape: *s }, *domain),
        decreases keys@.len() - i,
    {
        let key = keys[i];
        assert(key_overlaps2(keys@[i as int], *s, *domain));
        let chunk = extent_for_chunk2(key, *s);
        let sampling_extent = heightfield_sampling_extent(&chunk, domain);
        r.push(ChunkPlan2 { key, sampling_extent });
        i = i + 1;
    }
    proof {
        assert forall|a: int, b: int| 0 <= a < b < r@.len() implies r@[a].key != r@[b].key by {
            assert(r@[a].key == keys@[a]);
            assert(r@[b].key == keys@[b]);
        }
        assert forall|p: Point2i| #[trigger] domain.contains_spec(p) implies exists|i: int|
            0 <= i < r@.len() && r@[i].key == (Point2i {
                x: chunk_min_axis(p.x as int, s.x as int) as i32,
                y: chunk_min_axis(p.y as int, s.y as int) as i32,
            }) by {
            assert(has_key2(
                keys@,
                chunk_min_axis(p.x as int, s.x as int),
                chunk_min_axis(p.y as int, s.y as int),
            ));
            let k = choose|k: int|
                0 <= k < keys@.len() && keys@[k].x == chunk_min_axis(p.x as int, s.x as int)
                    && keys@[k].y == chunk_min_axis(p.y as int, s.y as int);
            assert(r@[k].key == keys@[k]);
        }
    }
    r
}

} // verus!
