//! The shape of an extracted mesh: parallel positions and normals, and
//! triangles given as triples of vertex indices.

use vstd::prelude::*;

verus! {

/// Positions and normals are parallel, the indices form whole triangles, and
/// every index names a vertex.
pub open spec fn mesh_well_formed(n_positions: int, n_normals: int, indices: Seq<usize>) -> bool {
    &&& n_positions == n_normals
    &&& indices.len() % 3 == 0
    &&& forall|i: int| 0 <= i < indices.len() ==> #[trigger] indices[i] < n_positions
}

/// Whether a mesh with `n_positions` positions, `n_normals` normals and the
/// triangle list `indices` is well formed.
pub fn is_well_formed_mesh(n_positions: usize, n_normals: usize, indices: &Vec<usize>) -> (r: bool)
    ensures
        r == mesh_well_formed(n_positions as int, n_normals as int, indices@),
{
    if n_positions != n_normals || indices.len() % 3 != 0 {
        return false;
    }
    let mut i: usize = 0;
    while i < indices.len()
        invariant
            i <= indices@.len(),
            forall|j: int| 0 <= j < i ==> #[trigger] indices@[j] < n_positions,
        decreases indices@.len() - i,
    {
        if indices[i] >= n_positions {
            return false;
        }
        i = i + 1;
    }
    true
}

} // verus!
