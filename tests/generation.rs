use sdf_meshing::mesh::is_well_formed_mesh;
use sdf_meshing::generator::{
    choose_shape, next_shape_index, HeightMap, MeshGeneratorState, Sdf, Shape, ShapeRequest,
    NUM_SHAPES,
};

#[test]
fn shapes_by_index() {
    assert_eq!(choose_shape(0), Shape::Sdf(Sdf::Cube));
    assert_eq!(choose_shape(1), Shape::Sdf(Sdf::Plane));
    assert_eq!(choose_shape(2), Shape::Sdf(Sdf::Sphere));
    assert_eq!(choose_shape(3), Shape::Sdf(Sdf::Torus));
    assert_eq!(choose_shape(4), Shape::HeightMap(HeightMap::Wave));
}

#[test]
fn shape_index_wraps() {
    assert_eq!(next_shape_index(0, ShapeRequest::Previous), NUM_SHAPES - 1);
    assert_eq!(next_shape_index(4, ShapeRequest::Next), 0);
    assert_eq!(next_shape_index(2, ShapeRequest::Next), 3);
    assert_eq!(next_shape_index(2, ShapeRequest::Previous), 1);
    assert_eq!(next_shape_index(3, ShapeRequest::Keep), 3);
}

#[test]
fn first_update_generates_current_shape() {
    let mut state: MeshGeneratorState<u32> = MeshGeneratorState::new();
    let g = state.begin_update(ShapeRequest::Keep).unwrap();
    assert_eq!(g.shape, Shape::Sdf(Sdf::Cube));
    assert!(g.discarded.is_empty());
    state.record_mesh(1);
    assert!(state.begin_update(ShapeRequest::Keep).is_none());
    assert_eq!(state.live_meshes().clone(), vec![1]);
}

#[test]
fn empty_result_regenerates_again() {
    let mut state: MeshGeneratorState<u32> = MeshGeneratorState::new();
    assert!(state.begin_update(ShapeRequest::Keep).is_some());
    assert!(state.begin_update(ShapeRequest::Keep).is_some());
}

#[test]
fn cycling_discards_exactly_previous_meshes() {
    let mut state: MeshGeneratorState<u32> = MeshGeneratorState::new();
    let mut previous: Vec<u32> = Vec::new();
    let mut next_handle = 0u32;
    for step in 0..12 {
        let request = if step % 3 == 2 { ShapeRequest::Previous } else { ShapeRequest::Next };
        let g = state.begin_update(request).unwrap();
        assert_eq!(g.discarded, previous);
        assert!(state.live_meshes().is_empty());
        assert_eq!(g.shape, choose_shape(state.current_shape_index()));
        let mut built = Vec::new();
        for _ in 0..(step % 4 + 1) {
            state.record_mesh(next_handle);
            built.push(next_handle);
            next_handle += 1;
        }
        assert_eq!(state.live_meshes().clone(), built);
        previous = built;
    }
    assert_eq!(state.current_shape(), choose_shape(state.current_shape_index()));
}

#[test]
fn mesh_shape_checks() {
    assert!(is_well_formed_mesh(3, 3, &vec![0, 1, 2]));
    assert!(is_well_formed_mesh(0, 0, &vec![]));
    assert!(!is_well_formed_mesh(3, 2, &vec![0, 1, 2]));
    assert!(!is_well_formed_mesh(3, 3, &vec![0, 1]));
    assert!(!is_well_formed_mesh(3, 3, &vec![0, 1, 3]));
}
