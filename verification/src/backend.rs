use vstd::prelude::*;

verus! {

/// Bytes between two vertices in the GPU vertex buffer: a position and a
/// normal of three 32-bit floats each.
pub const GPU_VERTEX_STRIDE: u64 = 24;

/// What one mesh upload reports.
#[derive(Clone, Copy, Debug, PartialEq, Eq)]
pub struct UploadedMesh {
    pub mesh_id: u64,
    pub vertex_count: usize,
    pub index_count: usize,
    pub vertex_stride: u64,
    pub shader_entry: &'static str,
}

/// A render backend that draws nothing and records each upload, numbering
/// meshes from one.
#[derive(Debug)]
pub struct NullRenderBackend {
    next_mesh_id: u64,
    uploads: Vec<UploadedMesh>,
}

impl NullRenderBackend {
    #[verifier::type_invariant]
    spec fn numbered_in_order(self) -> bool {
        &&& self.next_mesh_id == self.uploads.len() + 1
        &&& forall|i: int| 0 <= i < self.uploads.len() ==> #[trigger] self.uploads[i].mesh_id == i + 1
    }

    /// The uploads recorded so far, oldest first.
    pub closed spec fn recorded(&self) -> Seq<UploadedMesh> {
        self.uploads@
    }

    pub fn new() -> (backend: NullRenderBackend)
        ensures
            backend.recorded() == Seq::<UploadedMesh>::empty(),
    {
        NullRenderBackend { next_mesh_id: 1, uploads: Vec::new() }
    }

    /// Records the upload of a mesh with the given vertex and index counts.
    pub fn upload(&mut self, vertex_count: usize, index_count: usize) -> (upload: UploadedMesh)
        requires
            old(self).recorded().len() + 2 <= u64::MAX,
        ensures
            upload.mesh_id == old(self).recorded().len() + 1,
            upload.vertex_count == vertex_count,
            upload.index_count == index_count,
            upload.vertex_stride == GPU_VERTEX_STRIDE,
            upload.shader_entry@ == "vs_main"@,
            final(self).recorded() == old(self).recorded().push(upload),
    {
        proof {
            use_type_invariant(&*self);
        }
        let upload = UploadedMesh {
            mesh_id: self.next_mesh_id,
            vertex_count,
            index_count,
            vertex_stride: GPU_VERTEX_STRIDE,
            shader_entry: "vs_main",
        };
        let mut taken = NullRenderBackend::new();
        std::mem::swap(&mut taken, self);
        proof {
            use_type_invariant(&taken);
        }
        let NullRenderBackend { next_mesh_id, mut uploads } = taken;
        uploads.push(upload);
        *self = NullRenderBackend { next_mesh_id: next_mesh_id + 1, uploads };
        upload
    }

    pub fn uploads(&self) -> (uploads: &[UploadedMesh])
        ensures
            uploads@ == self.recorded(),
            forall|i: int| 0 <= i < uploads@.len() ==> #[trigger] uploads@[i].mesh_id == i + 1,
    {
        proof {
            use_type_invariant(self);
        }
        self.uploads.as_slice()
    }
}

impl Default for NullRenderBackend {
    fn default() -> (backend: NullRenderBackend)
        ensures
            backend.recorded() == Seq::<UploadedMesh>::empty(),
    {
        NullRenderBackend::new()
    }
}

} // verus!
