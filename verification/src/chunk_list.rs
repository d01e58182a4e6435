//! The collection of chunks: lookup by origin and lazy merging of every
//! chunk's mesh into one drawable mesh.
//!
//! Merging concatenates vertex lists in collection order and rebases each
//! chunk's indices by the number of vertices appended before it. The merged
//! mesh is memoized: it is computed on first request and then returned
//! unchanged until the cache is cleared by hand — mutating a chunk does not
//! invalidate it.

use vstd::prelude::*;
use crate::block::{BlockVertex, Vec3i};
use crate::chunk::Chunk;
use crate::mesh::TerrainMesh;

verus! {

/// The vertex list of the merged mesh: every chunk's vertices, in
/// collection order.
pub open spec fn merged_verts(chunks: Seq<Chunk>) -> Seq<BlockVertex>
    decreases chunks.len(),
{
    if chunks.len() == 0 {
        Seq::empty()
    } else {
        merged_verts(chunks.drop_last()) + chunks.last().mesh.vertices@
    }
}

/// `indices` with `offset` added to every entry.
pub open spec fn rebased_indices(indices: Seq<u32>, offset: int) -> Seq<u32> {
    indices.map(|k: int, v: u32| ((v + offset) as u32))
}

/// The index list of the merged mesh: every chunk's indices, in collection
/// order, each chunk's rebased by the vertices merged before it.
pub open spec fn merged_indices(chunks: Seq<Chunk>) -> Seq<u32>
    decreases chunks.len(),
{
    if chunks.len() == 0 {
        Seq::empty()
    } else {
        merged_indices(chunks.drop_last()) + rebased_indices(
            chunks.last().mesh.indices@,
            merged_verts(chunks.drop_last()).len() as int,
        )
    }
}

/// A prefix of the collection merges to no more vertices than the whole.
pub proof fn lemma_merged_verts_prefix_le(chunks: Seq<Chunk>, i: int)
    requires
        0 <= i <= chunks.len(),
    ensures
        merged_verts(chunks.subrange(0, i)).len() <= merged_verts(chunks).len(),
    decreases chunks.len() - i,
{
    if i == chunks.len() {
        assert(chunks.subrange(0, i) =~= chunks);
    } else {
        lemma_merged_verts_prefix_le(chunks, i + 1);
        assert(chunks.subrange(0, i + 1).drop_last() =~= chunks.subrange(0, i));
    }
}

/// When every chunk's mesh is well-formed and the merged vertex list fits a
/// `u32`, every merged index addresses a merged vertex.
pub proof fn lemma_merged_wf(chunks: Seq<Chunk>)
    requires
        forall|i: int| 0 <= i < chunks.len() ==> (#[trigger] chunks[i]).mesh.wf(),
        merged_verts(chunks).len() <= u32::MAX,
    ensures
        forall|j: int|
            0 <= j < merged_indices(chunks).len() ==> (#[trigger] merged_indices(chunks)[j] as int)
                < merged_verts(chunks).len(),
    decreases chunks.len(),
{
    if chunks.len() > 0 {
        let prefix = chunks.drop_last();
        let last = chunks.last();
        assert(forall|i: int| 0 <= i < prefix.len() ==> (#[trigger] prefix[i]).mesh.wf());
        lemma_merged_wf(prefix);
        let off = merged_verts(prefix).len() as int;
        assert forall|j: int| 0 <= j < merged_indices(chunks).len() implies (
        #[trigger] merged_indices(chunks)[j] as int) < merged_verts(chunks).len() by {
            if j >= merged_indices(prefix).len() {
                let k = j - merged_indices(prefix).len();
                assert((last.mesh.indices@[k] as int) < last.mesh.vertices@.len());
            }
        }
    }
}

/// The chunks of the world and the memoized merged mesh of all of them.
pub struct ChunkList {
    /// The list of chunks.
    pub chunks: Vec<Chunk>,
    /// The merged mesh of all the chunks, computed on first request.
    pub calculated_mesh: Option<TerrainMesh>,
}

impl ChunkList {
    /// Every chunk is well-formed.
    pub open spec fn wf(self) -> bool {
        forall|i: int| 0 <= i < self.chunks@.len() ==> (#[trigger] self.chunks@[i]).wf()
    }

    /// A list over the given chunks, with no merged mesh yet.
    pub fn new(chunks: Vec<Chunk>) -> (r: ChunkList)
        ensures
            r.chunks == chunks,
            r.calculated_mesh is None,
    {
        ChunkList { chunks, calculated_mesh: None }
    }

    /// Appends a chunk. The memoized merged mesh, if any, is left alone:
    /// clearing it is the caller's task.
    pub fn add_chunk(&mut self, chunk: Chunk)
        ensures
            final(self).chunks@ == old(self).chunks@.push(chunk),
            final(self).calculated_mesh == old(self).calculated_mesh,
    {
        self.chunks.push(chunk);
    }

    /// The first chunk whose origin equals `position`, or None when no
    /// chunk's origin does.
    pub fn get_chunk(&self, position: Vec3i) -> (r: Option<&Chunk>)
        ensures
            match r {
                Some(c) => exists|i: int|
                    0 <= i < self.chunks@.len() && *c == (#[trigger] self.chunks@[i])
                        && self.chunks@[i].position == position && (forall|j: int|
                        0 <= j < i ==> (#[trigger] self.chunks@[j]).position != position),
                None => forall|i: int|
                    0 <= i < self.chunks@.len() ==> (#[trigger] self.chunks@[i]).position
                        != position,
            },
    {
        let n = self.chunks.len();
        let mut i: usize = 0;
        while i < n
            invariant
                n == self.chunks@.len(),
                i <= n,
                forall|j: int|
                    0 <= j < i ==> (#[trigger] self.chunks@[j]).position != position,
            decreases n - i,
        {
            if self.chunks[i].position == position {
                return Some(&self.chunks[i]);
            }
            i = i + 1;
        }
        None
    }

    /// A mutable borrow of the first chunk whose origin equals `position`,
    /// or None when no chunk's origin does. The memoized merged mesh is left
    /// alone: a caller that mutates the chunk must clear it by hand.
    pub fn get_chunk_mut(&mut self, position: Vec3i) -> (r: Option<&mut Chunk>)
        ensures
            match r {
                Some(c) => {
                    &&& final(self).calculated_mesh == old(self).calculated_mesh
                    &&& exists|i: int|
                        0 <= i < old(self).chunks@.len()
                            && *c == (#[trigger] old(self).chunks@[i])
                            && old(self).chunks@[i].position == position
                            && final(self).chunks@ == old(self).chunks@.update(i, *final(c))
                            && (forall|j: int|
                            0 <= j < i ==> (#[trigger] old(self).chunks@[j]).position != position)
                },
                None => {
                    &&& *final(self) == *old(self)
                    &&& forall|i: int|
                        0 <= i < old(self).chunks@.len()
                            ==> (#[trigger] old(self).chunks@[i]).position != position
                },
            },
    {
        let n = self.chunks.len();
        let mut i: usize = 0;
        while i < n
            invariant
                *self == *old(self),
                n == self.chunks@.len(),
                i <= n,
                forall|j: int| 0 <= j < i ==> (#[trigger] self.chunks@[j]).position != position,
            decreases n - i,
        {
            if self.chunks[i].position == position {
                return Some(&mut self.chunks[i]);
            }
            i = i + 1;
        }
        None
    }

    /// Merges every chunk's mesh into one: vertex lists concatenated in
    /// collection order, each chunk's indices rebased by the running vertex
    /// total before it.
    pub fn merge_meshes(&mut self) -> (r: TerrainMesh)
        requires
            old(self).wf(),
            merged_verts(old(self).chunks@).len() <= u32::MAX,
        ensures
            *final(self) == *old(self),
            r.vertices@ == merged_verts(old(self).chunks@),
            r.indices@ == merged_indices(old(self).chunks@),
            r.wf(),
    {
        let ghost all = self.chunks@;
        let mut global_vertices: Vec<BlockVertex> = Vec::new();
        let mut global_indices: Vec<u32> = Vec::new();
        let n = self.chunks.len();
        let mut i: usize = 0;
        while i < n
            invariant
                *self == *old(self),
                all == self.chunks@,
                self.wf(),
                merged_verts(all).len() <= u32::MAX,
                n == all.len(),
                i <= n,
                global_vertices@ == merged_verts(all.subrange(0, i as int)),
                global_indices@ == merged_indices(all.subrange(0, i as int)),
            decreases n - i,
        {
            proof {
                lemma_merged_verts_prefix_le(all, i as int);
            }
            let base_index: u32 = global_vertices.len() as u32;
            let chunk = &self.chunks[i];
            let ghost prefix_verts = global_vertices@;
            let vcount = chunk.mesh.vertices.len();
            let mut j: usize = 0;
            while j < vcount
                invariant
                    vcount == chunk.mesh.vertices@.len(),
                    j <= vcount,
                    global_vertices@ == prefix_verts + chunk.mesh.vertices@.subrange(
                        0, j as int),
                decreases vcount - j,
            {
                global_vertices.push(chunk.mesh.vertices[j]);
                proof {
                    assert(chunk.mesh.vertices@.subrange(0, j as int + 1)
                        =~= chunk.mesh.vertices@.subrange(0, j as int).push(
                        chunk.mesh.vertices@[j as int]));
                }
                j = j + 1;
            }
            let ghost prefix_inds = global_indices@;
            let icount = chunk.mesh.indices.len();
            let mut k: usize = 0;
            while k < icount
                invariant
                    all == self.chunks@,
                    self.wf(),
                    merged_verts(all).len() <= u32::MAX,
                    i < all.len(),
                    chunk == &all[i as int],
                    icount == chunk.mesh.indices@.len(),
                    k <= icount,
                    base_index as int == prefix_verts.len(),
                    prefix_verts == merged_verts(all.subrange(0, i as int)),
                    global_indices@ == prefix_inds + rebased_indices(
                        chunk.mesh.indices@.subrange(0, k as int), base_index as int),
                decreases icount - k,
            {
                proof {
                    lemma_merged_verts_prefix_le(all, i as int + 1);
                    assert(all.subrange(0, i as int + 1).drop_last() =~= all.subrange(0, i as int));
                    assert(chunk.mesh.wf());
                    assert((chunk.mesh.indices@[k as int] as int) < chunk.mesh.vertices@.len());
                }
                let idx = chunk.mesh.indices[k];
                global_indices.push(base_index + idx);
                proof {
                    assert(rebased_indices(
                        chunk.mesh.indices@.subrange(0, k as int + 1), base_index as int)
                        =~= rebased_indices(
                        chunk.mesh.indices@.subrange(0, k as int), base_index as int).push(
                        ((chunk.mesh.indices@[k as int] + base_index) as u32)));
                }
                k = k + 1;
            }
            proof {
                assert(all.subrange(0, i as int + 1).drop_last() =~= all.subrange(0, i as int));
                assert(chunk.mesh.vertices@.subrange(0, vcount as int) =~= chunk.mesh.vertices@);
                assert(chunk.mesh.indices@.subrange(0, icount as int) =~= chunk.mesh.indices@);
                assert(global_vertices@ =~= merged_verts(all.subrange(0, i as int + 1)));
                assert(global_indices@ =~= merged_indices(all.subrange(0, i as int + 1)));
            }
            i = i + 1;
        }
        proof {
            assert(all.subrange(0, n as int) =~= all);
            lemma_merged_wf(all);
        }
        let mut merged = TerrainMesh::new();
        merged.set_vertices(global_vertices);
        merged.set_indices(global_indices);
        merged
    }

    /// The memoized merged mesh: computed by `merge_meshes` on the first
    /// request, returned unchanged on every later one — even if a chunk has
    /// changed meanwhile — until the cache is cleared by hand.
    pub fn mesh(&mut self) -> (r: &TerrainMesh)
        requires
            old(self).wf(),
            merged_verts(old(self).chunks@).len() <= u32::MAX,
        ensures
            final(self).chunks@ == old(self).chunks@,
            final(self).wf(),
            final(self).calculated_mesh == Some(*r),
            old(self).calculated_mesh is Some ==> final(self).calculated_mesh == old(
                self,
            ).calculated_mesh,
            old(self).calculated_mesh is None ==> r.vertices@ == merged_verts(old(self).chunks@)
                && r.indices@ == merged_indices(old(self).chunks@) && r.wf(),
    {
        if self.calculated_mesh.is_none() {
            let merged = self.merge_meshes();
            self.calculated_mesh = Some(merged);
        }
        self.calculated_mesh.as_ref().unwrap()
    }

    /// Clears the memoized merged mesh, so that the next `mesh` call merges
    /// afresh.
    pub fn clear_mesh_cache(&mut self)
        ensures
            final(self).chunks@ == old(self).chunks@,
            final(self).calculated_mesh is None,
    {
        self.calculated_mesh = None;
    }
}

/// Merging two chunks keeps the first chunk's indices, rebases every index
/// of the second by the first's vertex count, and leaves every merged index
/// addressing a merged vertex.
pub proof fn lemma_merge_two_rebases(chunks: Seq<Chunk>, a: Chunk, b: Chunk)
    requires
        chunks == seq![a, b],
        a.mesh.wf(),
        b.mesh.wf(),
        a.mesh.vertices@.len() + b.mesh.vertices@.len() <= u32::MAX,
    ensures
        merged_verts(chunks).len() == a.mesh.vertices@.len() + b.mesh.vertices@.len(),
        merged_indices(chunks).len() == a.mesh.indices@.len() + b.mesh.indices@.len(),
        forall|k: int|
            0 <= k < a.mesh.indices@.len() ==> #[trigger] merged_indices(chunks)[k]
                == a.mesh.indices@[k],
        forall|k: int|
            0 <= k < b.mesh.indices@.len() ==> (#[trigger] merged_indices(
                chunks,
            )[a.mesh.indices@.len() + k] as int) == b.mesh.indices@[k]
                + a.mesh.vertices@.len(),
        forall|j: int|
            0 <= j < merged_indices(chunks).len() ==> (#[trigger] merged_indices(chunks)[j] as int)
                < merged_verts(chunks).len(),
{
    let one = seq![a];
    assert(chunks.drop_last() =~= one);
    assert(one.drop_last() =~= Seq::<Chunk>::empty());
    assert(merged_verts(Seq::<Chunk>::empty()) == Seq::<BlockVertex>::empty());
    assert(merged_indices(Seq::<Chunk>::empty()) == Seq::<u32>::empty());
    assert(one.last() == a);
    assert(merged_verts(one) =~= a.mesh.vertices@);
    assert(merged_indices(one) =~= rebased_indices(a.mesh.indices@, 0));
    assert forall|k: int| 0 <= k < a.mesh.indices@.len() implies #[trigger] merged_indices(
        chunks,
    )[k] == a.mesh.indices@[k] by {
        assert(merged_indices(chunks)[k] == rebased_indices(a.mesh.indices@, 0)[k]);
    }
    assert forall|i: int| 0 <= i < chunks.len() implies (#[trigger] chunks[i]).mesh.wf() by {}
    lemma_merged_wf(chunks);
}

} // verus!
