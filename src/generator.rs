//! Shape selection and the bookkeeping of one generation session: which shape
//! is shown and which meshes are alive, so that every regeneration tears down
//! exactly the meshes of the one before it.

use vstd::prelude::*;

verus! {

/// Volumetric shapes, meshed from a signed distance field.
#[derive(Clone, Copy, Debug, PartialEq, Eq, Structural)]
pub enum Sdf {
    Cube,
    Plane,
    Sphere,
    Torus,
}

/// Shapes given as an elevation over the plane.
#[derive(Clone, Copy, Debug, PartialEq, Eq, Structural)]
pub enum HeightMap {
    Wave,
}

/// A shape and the extraction scheme that meshes it.
#[derive(Clone, Copy, Debug, PartialEq, Eq, Structural)]
pub enum Shape {
    Sdf(Sdf),
    HeightMap(HeightMap),
}

/// How many shapes can be selected.
pub const NUM_SHAPES: i32 = 5;

/// The shape selected by `index`.
pub open spec fn shape_of(index: int) -> Shape {
    if index == 0 {
        Shape::Sdf(Sdf::Cube)
    } else if index == 1 {
        Shape::Sdf(Sdf::Plane)
    } else if index == 2 {
        Shape::Sdf(Sdf::Sphere)
    } else if index == 3 {
        Shape::Sdf(Sdf::Torus)
    } else {
        Shape::HeightMap(HeightMap::Wave)
    }
}

/// The shape selected by `index`; an index outside `0..NUM_SHAPES` is a
/// programming error.
pub fn choose_shape(index: i32) -> (r: Shape)
    requires
        0 <= index < NUM_SHAPES,
    ensures
        r == shape_of(index as int),
{
    match index {
        0 => Shape::Sdf(Sdf::Cube),
        1 => Shape::Sdf(Sdf::Plane),
        2 => Shape::Sdf(Sdf::Sphere),
        3 => Shape::Sdf(Sdf::Torus),
        _ => Shape::HeightMap(HeightMap::Wave),
    }
}

/// A request from the user for the next update.
#[derive(Clone, Copy, Debug, PartialEq, Eq, Structural)]
pub enum ShapeRequest {
    /// Keep the current shape.
    Keep,
    /// Step back to the previous shape, wrapping around.
    Previous,
    /// Step forward to the next shape, wrapping around.
    Next,
}

/// The shape index after `request`, wrapping modulo the number of shapes.
pub open spec fn next_index_spec(index: int, request: ShapeRequest) -> int {
    match request {
        ShapeRequest::Keep => index,
        ShapeRequest::Previous => (index - 1) % (NUM_SHAPES as int),
        ShapeRequest::Next => (index + 1) % (NUM_SHAPES as int),
    }
}

/// The shape index after `request`, wrapping modulo the number of shapes.
pub fn next_shape_index(index: i32, request: ShapeRequest) -> (r: i32)
    requires
        0 <= index < NUM_SHAPES,
    ensures
        r == next_index_spec(index as int, request),
        0 <= r < NUM_SHAPES,
{
    match request {
        ShapeRequest::Keep => index,
        ShapeRequest::Previous => (index - 1).checked_rem_euclid(NUM_SHAPES).unwrap(),
        ShapeRequest::Next => (index + 1).checked_rem_euclid(NUM_SHAPES).unwrap(),
    }
}

/// The abstract state of a session: the selected shape and the live meshes.
pub struct GeneratorView<H> {
    pub shape_index: int,
    pub live: Seq<H>,
}

/// Whether an update with `request` rebuilds the meshes: on a change of shape,
/// or when no mesh is alive (the first update, or a shape that gave none).
pub open spec fn regenerates<H>(v: GeneratorView<H>, request: ShapeRequest) -> bool {
    request != ShapeRequest::Keep || v.live.len() == 0
}

/// The state after an update with `request`: when it regenerates, the live
/// meshes are handed out for teardown and none is left.
pub open spec fn after_update<H>(v: GeneratorView<H>, request: ShapeRequest) -> GeneratorView<H> {
    GeneratorView {
        shape_index: next_index_spec(v.shape_index, request),
        live: if regenerates(v, request) {
            Seq::empty()
        } else {
            v.live
        },
    }
}

/// The meshes that an update with `request` hands out for teardown.
pub open spec fn discarded_by<H>(v: GeneratorView<H>, request: ShapeRequest) -> Seq<H> {
    if regenerates(v, request) {
        v.live
    } else {
        Seq::empty()
    }
}

/// The state after the meshes `hs` were built and recorded, in that order.
pub open spec fn after_recording<H>(v: GeneratorView<H>, hs: Seq<H>) -> GeneratorView<H> {
    GeneratorView { shape_index: v.shape_index, live: v.live + hs }
}

/// What a regeneration asks of the caller: tear down `discarded`, then mesh `shape`.
pub struct Regeneration<H> {
    pub shape: Shape,
    pub discarded: Vec<H>,
}

/// The state of one generation session. `H` is whatever handle the scene gives
/// for a mesh it shows.
pub struct MeshGeneratorState<H> {
    current_shape_index: i32,
    chunk_mesh_entities: Vec<H>,
}

impl<H> MeshGeneratorState<H> {
    pub closed spec fn view(&self) -> GeneratorView<H> {
        GeneratorView {
            shape_index: self.current_shape_index as int,
            live: self.chunk_mesh_entities@,
        }
    }

    pub open spec fn wf(&self) -> bool {
        0 <= self.view().shape_index < NUM_SHAPES
    }

    /// A session showing the first shape, with no mesh yet.
    pub fn new() -> (r: MeshGeneratorState<H>)
        ensures
            r.wf(),
            r.view().shape_index == 0,
            r.view().live.len() == 0,
    {
        MeshGeneratorState { current_shape_index: 0, chunk_mesh_entities: Vec::new() }
    }

    pub fn current_shape_index(&self) -> (r: i32)
        ensures
            r == self.view().shape_index,
    {
        self.current_shape_index
    }

    /// The shape currently selected.
    pub fn current_shape(&self) -> (r: Shape)
        requires
            self.wf(),
        ensures
            r == shape_of(self.view().shape_index),
    {
        choose_shape(self.current_shape_index)
    }

    /// The handles of the meshes alive now.
    pub fn live_meshes(&self) -> (r: &Vec<H>)
        ensures
            r@ == self.view().live,
    {
        &self.chunk_mesh_entities
    }

    /// Applies `request`. When the meshes must be rebuilt, returns the shape to
    /// mesh and the live meshes to tear down, and forgets them.
    pub fn begin_update(&mut self, request: ShapeRequest) -> (r: Option<Regeneration<H>>)
        requires
            old(self).wf(),
        ensures
            final(self).wf(),
            final(self).view() == after_update(old(self).view(), request),
            r is Some == regenerates(old(self).view(), request),
            r matches Some(g) ==> g.shape == shape_of(final(self).view().shape_index) && g.discarded@
                == discarded_by(old(self).view(), request),
    {
        let changed = match request {
            ShapeRequest::Keep => false,
            _ => true,
        };
        self.current_shape_index = next_shape_index(self.current_shape_index, request);
        if changed || self.chunk_mesh_entities.len() == 0 {
            let mut discarded: Vec<H> = Vec::new();
            std::mem::swap(&mut discarded, &mut self.chunk_mesh_entities);
            let shape = choose_shape(self.current_shape_index);
            proof {
                assert(self.view().live =~= Seq::<H>::empty());
            }
            Some(Regeneration { shape, discarded })
        } else {
            None
        }
    }

    /// Records a mesh built for the current shape.
    pub fn record_mesh(&mut self, handle: H)
        requires
            old(self).wf(),
        ensures
            final(self).wf(),
            final(self).view() == after_recording(old(self).view(), seq![handle]),
    {
        self.chunk_mesh_entities.push(handle);
        proof {
            assert(self.view().live =~= old(self).view().live + seq![handle]);
        }
    }
}

/// Each regeneration tears down exactly the meshes recorded since the one
/// before it, and afterwards only the meshes it builds are alive: over any
/// number of regenerations just one set of meshes is ever alive.
pub proof fn lemma_regeneration_discards_previous<H>(
    v: GeneratorView<H>,
    first: ShapeRequest,
    built: Seq<H>,
    second: ShapeRequest,
    rebuilt: Seq<H>,
)
    requires
        regenerates(v, first),
        regenerates(after_recording(after_update(v, first), built), second),
    ensures
        discarded_by(v, first) == v.live,
        after_recording(after_update(v, first), built).live == built,
        discarded_by(after_recording(after_update(v, first), built), second) == built,
        after_update(after_recording(after_update(v, first), built), second).live.len() == 0,
        after_recording(
            after_update(after_recording(after_update(v, first), built), second),
            rebuilt,
        ).live == rebuilt,
{
    assert(Seq::<H>::empty() + built =~= built);
    assert(Seq::<H>::empty() + rebuilt =~= rebuilt);
}

} // verus!
