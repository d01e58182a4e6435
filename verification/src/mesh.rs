//! The triangle mesh a chunk or a merged grid hands to a renderer: a vertex
//! list and a `u32` index list, interpreted as a triangle list.

use vstd::prelude::*;
use crate::block::{BlockQuad, BlockVertex};

verus! {

/// The six indices of the two triangles of the quad whose first vertex sits
/// at `base`: (0,1,2) and (0,2,3) relative to the quad's four vertices.
pub open spec fn quad_indices(base: int) -> Seq<u32> {
    seq![
        base as u32,
        (base + 1) as u32,
        (base + 2) as u32,
        base as u32,
        (base + 2) as u32,
        (base + 3) as u32,
    ]
}

/// The index list of a mesh made of `n_faces` quads appended in order: face
/// `k` occupies vertices `4k..4k+4`.
pub open spec fn mesh_indices(n_faces: nat) -> Seq<u32>
    decreases n_faces,
{
    if n_faces == 0 {
        Seq::empty()
    } else {
        mesh_indices((n_faces - 1) as nat) + quad_indices(4 * (n_faces - 1))
    }
}

/// A vertex buffer and an index buffer forming a triangle list.
#[derive(Clone, Debug)]
pub struct TerrainMesh {
    pub vertices: Vec<BlockVertex>,
    pub indices: Vec<u32>,
}

impl TerrainMesh {
    /// Every index addresses a vertex of this mesh.
    pub open spec fn wf(self) -> bool {
        forall|i: int|
            0 <= i < self.indices@.len() ==> (self.indices@[i] as int) < self.vertices@.len()
    }

    /// An empty mesh.
    pub fn new() -> (r: TerrainMesh)
        ensures
            r.vertices@ == Seq::<BlockVertex>::empty(),
            r.indices@ == Seq::<u32>::empty(),
            r.wf(),
    {
        TerrainMesh { vertices: Vec::new(), indices: Vec::new() }
    }

    /// Appends one quad: its four vertices, then the six indices of its two
    /// triangles, rebased by the vertex count before the call.
    pub fn add_face(&mut self, face: BlockQuad)
        requires
            old(self).vertices@.len() + 4 <= u32::MAX,
        ensures
            final(self).vertices@ == old(self).vertices@ + face.vertices@,
            final(self).indices@ == old(self).indices@
                + quad_indices(old(self).vertices@.len() as int),
    {
        let base_index: u32 = self.vertices.len() as u32;

        self.vertices.push(face.vertices[0]);
        self.vertices.push(face.vertices[1]);
        self.vertices.push(face.vertices[2]);
        self.vertices.push(face.vertices[3]);

        self.indices.push(base_index);
        self.indices.push(base_index + 1);
        self.indices.push(base_index + 2);

        self.indices.push(base_index);
        self.indices.push(base_index + 2);
        self.indices.push(base_index + 3);

        proof {
            assert(self.vertices@ =~= old(self).vertices@ + face.vertices@);
            assert(self.indices@ =~= old(self).indices@
                + quad_indices(old(self).vertices@.len() as int));
        }
    }

    /// The vertex buffer.
    pub fn vertices(&self) -> (r: &Vec<BlockVertex>)
        ensures
            r@ == self.vertices@,
    {
        &self.vertices
    }

    /// The vertex buffer, writable.
    pub fn vertices_mut(&mut self) -> (r: &mut Vec<BlockVertex>)
        ensures
            *r == old(self).vertices,
            final(self).vertices == *final(r),
            final(self).indices == old(self).indices,
    {
        &mut self.vertices
    }

    /// Replaces the vertex buffer.
    pub fn set_vertices(&mut self, vertices: Vec<BlockVertex>)
        ensures
            final(self).vertices == vertices,
            final(self).indices == old(self).indices,
    {
        self.vertices = vertices;
    }

    /// The index buffer.
    pub fn indices(&self) -> (r: &Vec<u32>)
        ensures
            r@ == self.indices@,
    {
        &self.indices
    }

    /// The index buffer, writable.
    pub fn indices_mut(&mut self) -> (r: &mut Vec<u32>)
        ensures
            *r == old(self).indices,
            final(self).indices == *final(r),
            final(self).vertices == old(self).vertices,
    {
        &mut self.indices
    }

    /// Replaces the index buffer.
    pub fn set_indices(&mut self, indices: Vec<u32>)
        ensures
            final(self).indices == indices,
            final(self).vertices == old(self).vertices,
    {
        self.indices = indices;
    }
}

/// Every index of `mesh_indices(n)` addresses one of the `4n` vertices.
pub proof fn lemma_mesh_indices_valid(n_faces: nat)
    ensures
        mesh_indices(n_faces).len() == 6 * n_faces,
        forall|i: int|
            0 <= i < mesh_indices(n_faces).len()
                ==> (#[trigger] mesh_indices(n_faces)[i] as int) < 4 * n_faces,
    decreases n_faces,
{
    if n_faces > 0 {
        lemma_mesh_indices_valid((n_faces - 1) as nat);
    }
}

} // verus!
