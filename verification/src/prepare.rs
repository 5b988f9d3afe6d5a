use vstd::prelude::*;

verus! {

/// What can be wrong with the geometry handed to preparation.
#[derive(Clone, Copy, Debug, PartialEq, Eq, Structural)]
pub enum GeometryError {
    /// The mesh has no triangles.
    EmptyMesh,
}

/// Why a mesh could not be prepared.
#[derive(Clone, Copy, Debug, PartialEq, Eq, Structural)]
pub enum PrepareError {
    Geometry(GeometryError),
}

/// Which source position each prepared vertex takes, and the prepared
/// index list. Preparation gives every triangle corner a vertex of its own,
/// so that each triangle can carry its own flat normal.
#[derive(Clone, Debug, PartialEq, Eq)]
pub struct PreparedMeshLayout {
    pub source_positions: Vec<u32>,
    pub indices: Vec<u32>,
}

/// Prepares triangle meshes for upload: recentred positions and flat
/// normals, one vertex per triangle corner.
#[derive(Clone, Copy, Debug, PartialEq, Eq, Structural)]
pub struct MeshPreparePipeline;

impl Default for MeshPreparePipeline {
    fn default() -> (pipeline: MeshPreparePipeline)
        ensures
            pipeline == MeshPreparePipeline,
    {
        MeshPreparePipeline
    }
}

impl MeshPreparePipeline {
    /// The vertex layout of the prepared mesh: vertex `k` takes corner
    /// `k % 3` of triangle `k / 3`, and the index list counts the vertices
    /// in order. A mesh without triangles is refused.
    pub fn prepare_mesh_layout(&self, triangles: &[[u32; 3]]) -> (r: Result<
        PreparedMeshLayout,
        PrepareError,
    >)
        requires
            3 * triangles.len() <= u32::MAX + 1,
        ensures
            triangles.len() == 0 <==> r == Err::<PreparedMeshLayout, _>(
                PrepareError::Geometry(GeometryError::EmptyMesh),
            ),
            r matches Ok(layout) ==> {
                &&& layout.source_positions@.len() == 3 * triangles.len()
                &&& layout.indices@.len() == 3 * triangles.len()
                &&& forall|k: int|
                    0 <= k < 3 * triangles.len() ==> #[trigger] layout.source_positions@[k]
                        == triangles@[k / 3][k % 3]
                &&& forall|k: int| 0 <= k < 3 * triangles.len() ==> #[trigger] layout.indices@[k] == k
            },
    {
        if triangles.len() == 0 {
            return Err(PrepareError::Geometry(GeometryError::EmptyMesh));
        }
        let mut source_positions: Vec<u32> = Vec::new();
        let mut indices: Vec<u32> = Vec::new();
        let mut t: usize = 0;
        while t < triangles.len()
            invariant
                t <= triangles.len(),
                3 * triangles.len() <= u32::MAX + 1,
                source_positions@.len() == 3 * t,
                indices@.len() == 3 * t,
                forall|k: int|
                    0 <= k < 3 * t ==> #[trigger] source_positions@[k] == triangles@[k / 3][k % 3],
                forall|k: int| 0 <= k < 3 * t ==> #[trigger] indices@[k] == k,
            decreases triangles.len() - t,
        {
            let triangle = triangles[t];
            let mut c: usize = 0;
            while c < 3
                invariant
                    t < triangles.len(),
                    c <= 3,
                    triangle == triangles@[t as int],
                    3 * triangles.len() <= u32::MAX + 1,
                    source_positions@.len() == 3 * t + c,
                    indices@.len() == 3 * t + c,
                    forall|k: int|
                        0 <= k < 3 * t + c ==> #[trigger] source_positions@[k] == triangles@[k
                            / 3][k % 3],
                    forall|k: int| 0 <= k < 3 * t + c ==> #[trigger] indices@[k] == k,
                decreases 3 - c,
            {
                let prepared_index = (3 * t + c) as u32;
                source_positions.push(triangle[c]);
                indices.push(prepared_index);
                proof {
                    let k = 3 * t + c;
                    assert(k / 3 == t && k % 3 == c) by (nonlinear_arith)
                        requires
                            k == 3 * t + c,
                            c < 3,
                    ;
                }
                c += 1;
            }
            t += 1;
        }
        Ok(PreparedMeshLayout { source_positions, indices })
    }
}

} // verus!
