//! How far each extraction scheme reaches beyond a chunk's own extent.
//!
//! Volumetric extraction looks at the neighbours of every cell, so a chunk is
//! sampled with a border of one cell on every face. Heightfield triangulation
//! also joins each sample to the next row and column, so its chunks get that
//! border plus one more row and column at the maximum corner, clipped to the
//! domain the field was sampled over.

use vstd::prelude::*;
use crate::geometry::{Extent2i, Extent3i, Point2i, max_int, min_int};

verus! {

/// The extent that volumetric extraction samples for `chunk`.
pub open spec fn volumetric_extent_spec(chunk: Extent3i) -> Extent3i {
    chunk.padded_spec(1)
}

/// The extent that heightfield triangulation samples for `chunk` inside `domain`.
pub open spec fn heightfield_extent_spec(chunk: Extent2i, domain: Extent2i) -> Extent2i {
    chunk.padded_spec(1).add_to_shape_spec(Point2i { x: 1, y: 1 }).intersection_spec(domain)
}

/// The heightfield extent of `chunk` in `domain` is computable without overflow.
pub open spec fn heightfield_extent_fits(chunk: Extent2i, domain: Extent2i) -> bool {
    &&& chunk.can_pad(1)
    &&& chunk.padded_spec(1).can_add_to_shape(Point2i { x: 1, y: 1 })
    &&& chunk.padded_spec(1).add_to_shape_spec(Point2i { x: 1, y: 1 }).can_intersect(domain)
}

/// The chunk's extent with a border of one cell on every face.
pub fn volumetric_sampling_extent(chunk: &Extent3i) -> (r: Extent3i)
    requires
        chunk.can_pad(1),
    ensures
        r == volumetric_extent_spec(*chunk),
        r.minimum.x == chunk.minimum.x - 1,
        r.minimum.y == chunk.minimum.y - 1,
        r.minimum.z == chunk.minimum.z - 1,
        r.shape.x == chunk.shape.x + 2,
        r.shape.y == chunk.shape.y + 2,
        r.shape.z == chunk.shape.z + 2,
{
    chunk.padded(1)
}

/// The chunk's extent with a border of one cell, one more row and column at the
/// maximum corner, clipped to `domain`.
pub fn heightfield_sampling_extent(chunk: &Extent2i, domain: &Extent2i) -> (r: Extent2i)
    requires
        heightfield_extent_fits(*chunk, *domain),
    ensures
        r == heightfield_extent_spec(*chunk, *domain),
        r.minimum.x == max_int(chunk.minimum.x - 1, domain.minimum.x as int),
        r.minimum.y == max_int(chunk.minimum.y - 1, domain.minimum.y as int),
        r.minimum.x + r.shape.x == min_int(
            chunk.minimum.x + chunk.shape.x + 2,
            domain.minimum.x + domain.shape.x,
        ),
        r.minimum.y + r.shape.y == min_int(
            chunk.minimum.y + chunk.shape.y + 2,
            domain.minimum.y + domain.shape.y,
        ),
        domain.minimum.x <= r.minimum.x,
        domain.minimum.y <= r.minimum.y,
        r.minimum.x + r.shape.x <= domain.minimum.x + domain.shape.x,
        r.minimum.y + r.shape.y <= domain.minimum.y + domain.shape.y,
{
    chunk.padded(1).add_to_shape(Point2i::fill(1)).intersection(domain)
}

/// Clipping a padded extent to a domain that already holds it changes nothing.
pub proof fn lemma_clip_padded_inside_domain3(chunk: Extent3i, n: int, domain: Extent3i)
    requires
        chunk.can_pad(n),
        chunk.padded_spec(n).is_within(domain),
    ensures
        chunk.padded_spec(n).intersection_spec(domain) == chunk.padded_spec(n),
{
}

/// Clipping a padded extent to a domain that already holds it changes nothing.
pub proof fn lemma_clip_padded_inside_domain2(chunk: Extent2i, n: int, domain: Extent2i)
    requires
        chunk.can_pad(n),
        chunk.padded_spec(n).is_within(domain),
    ensures
        chunk.padded_spec(n).intersection_spec(domain) == chunk.padded_spec(n),
{
}

/// Away from the domain's boundary the heightfield extent is the padded and
/// extended chunk, unclipped.
pub proof fn lemma_heightfield_extent_inside_domain(chunk: Extent2i, domain: Extent2i)
    requires
        heightfield_extent_fits(chunk, domain),
        chunk.padded_spec(1).add_to_shape_spec(Point2i { x: 1, y: 1 }).is_within(domain),
    ensures
        heightfield_extent_spec(chunk, domain) == chunk.padded_spec(1).add_to_shape_spec(
            Point2i { x: 1, y: 1 },
        ),
{
}

} // verus!
