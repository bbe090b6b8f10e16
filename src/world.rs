use vstd::prelude::*;

use crate::chunk::{column_offset, column_voxel, in_chunk, voxel_offset, Chunk, CHUNK_DIM, CHUNK_HEIGHT, CHUNK_N_VOXELS};
use crate::coords::{ChunkIndex, VoxelIndex};
use crate::mesh::{chunk_mesh, ChunkMesh};
use crate::voxel::Voxel;

verus! {

/// Where a chunk's uploaded geometry lives: a vertex array handle and the
/// number of indices to draw from it.
#[derive(Clone, Copy, Debug, Default, PartialEq, Eq)]
pub struct ChunkRenderdata {
    pub vao: u32,
    pub indices_len: u32,
}

/// Render data of a chunk whose geometry was never uploaded: draws nothing.
pub open spec fn unbuilt() -> ChunkRenderdata {
    ChunkRenderdata { vao: 0, indices_len: 0 }
}

impl ChunkRenderdata {
    pub fn from_vao_handle(handle: (u32, u32)) -> (r: ChunkRenderdata)
        ensures
            r.vao == handle.0,
            r.indices_len == handle.1,
    {
        ChunkRenderdata { vao: handle.0, indices_len: handle.1 }
    }
}

/// One loaded chunk as the world sees it: its index, its voxels, whether it
/// is dirty, and its render data.
pub type EntryView = (ChunkIndex, Seq<Voxel>, bool, ChunkRenderdata);

/// Every chunk is complete, and no two entries share an index.
pub open spec fn well_formed(s: Seq<EntryView>) -> bool {
    &&& forall|k: int| 0 <= k < s.len() ==> (#[trigger] s[k]).1.len() == CHUNK_N_VOXELS
    &&& forall|j: int, k: int| 0 <= j < s.len() && 0 <= k < s.len() && j != k ==> (#[trigger] s[j]).0 != (#[trigger] s[k]).0
}

/// Some entry has index `i`.
pub open spec fn loaded(s: Seq<EntryView>, i: ChunkIndex) -> bool {
    exists|k: int| 0 <= k < s.len() && (#[trigger] s[k]).0 == i
}

/// The position of the entry with index `i`.
pub open spec fn position_of(s: Seq<EntryView>, i: ChunkIndex) -> int {
    choose|k: int| 0 <= k < s.len() && (#[trigger] s[k]).0 == i
}

/// The voxels of the chunk with index `i`.
pub open spec fn cells_of(s: Seq<EntryView>, i: ChunkIndex) -> Seq<Voxel> {
    s[position_of(s, i)].1
}

/// The world after a render pass in which `built[k]`, where present, is the
/// render data just uploaded for entry `k`: that entry takes it and is clean.
pub open spec fn rendered(s: Seq<EntryView>, built: Seq<Option<ChunkRenderdata>>) -> Seq<EntryView> {
    Seq::new(
        s.len(),
        |k: int|
            if k < built.len() && built[k] is Some {
                (s[k].0, s[k].1, false, built[k]->0)
            } else {
                s[k]
            },
    )
}

/// The loaded chunks, each under a distinct index, with the render data of
/// its last uploaded geometry.
pub struct World {
    chunks: Vec<(ChunkIndex, Chunk, ChunkRenderdata)>,
}

impl View for World {
    type V = Seq<EntryView>;

    closed spec fn view(&self) -> Seq<EntryView> {
        self.chunks@.map_values(
            |e: (ChunkIndex, Chunk, ChunkRenderdata)| (e.0, e.1.cells(), e.1.dirty(), e.2),
        )
    }
}

/// The entry with index `i`, when there is one, is the only one.
proof fn lemma_position_unique(s: Seq<EntryView>, i: ChunkIndex, k: int)
    requires
        well_formed(s),
        0 <= k < s.len(),
        s[k].0 == i,
    ensures
        loaded(s, i),
        position_of(s, i) == k,
{
    assert(loaded(s, i));
}

impl World {
    pub open spec fn wf(&self) -> bool {
        well_formed(self@)
    }

    /// A world with no chunk loaded.
    pub fn empty() -> (r: World)
        ensures
            r.wf(),
            r@ == Seq::<EntryView>::empty(),
    {
        let r = World { chunks: Vec::new() };
        assert(r@ =~= Seq::<EntryView>::empty());
        r
    }

    /// Number of loaded chunks.
    pub fn len(&self) -> (r: usize)
        ensures
            r == self@.len(),
    {
        self.chunks.len()
    }

    /// The position of the entry with index `i`, if there is one.
    fn find(&self, i: &ChunkIndex) -> (r: Option<usize>)
        ensures
            r is Some ==> r->0 < self@.len() && self@[r->0 as int].0 == *i,
            r is None ==> !loaded(self@, *i),
    {
        let mut k: usize = 0;
        while k < self.chunks.len()
            invariant
                0 <= k <= self.chunks@.len(),
                self@.len() == self.chunks@.len(),
                forall|j: int| 0 <= j < k ==> self@[j].0 != *i,
            decreases self.chunks@.len() - k,
        {
            if self.chunks[k].0.same(i) {
                return Some(k);
            }
            k += 1;
        }
        None
    }

    pub fn has_chunk(&self, i: ChunkIndex) -> (r: bool)
        ensures
            r == loaded(self@, i),
    {
        self.find(&i).is_some()
    }

    /// Stores `chunk` under `i`, with no geometry uploaded yet. A chunk
    /// already held under `i` is replaced in place, so indices stay unique.
    pub fn insert_chunk(&mut self, i: ChunkIndex, chunk: Chunk)
        requires
            old(self).wf(),
            chunk.wf(),
        ensures
            final(self).wf(),
            loaded(old(self)@, i) ==> final(self)@ == old(self)@.update(
                position_of(old(self)@, i),
                (i, chunk.cells(), chunk.dirty(), unbuilt()),
            ),
            !loaded(old(self)@, i) ==> final(self)@ == old(self)@.push(
                (i, chunk.cells(), chunk.dirty(), unbuilt()),
            ),
    {
        let entry = (i, chunk, ChunkRenderdata { vao: 0, indices_len: 0 });
        match self.find(&i) {
            Some(k) => {
                proof {
                    lemma_position_unique(old(self)@, i, k as int);
                }
                self.chunks.set(k, entry);
                assert(self@ =~= old(self)@.update(k as int, (i, chunk.cells(), chunk.dirty(), unbuilt())));
            },
            None => {
                self.chunks.push(entry);
                assert(self@ =~= old(self)@.push((i, chunk.cells(), chunk.dirty(), unbuilt())));
            },
        }
    }

    /// Loads the chunk `i` shaped by the height map `heights` (see
    /// `Chunk::from_column_heights`), unless a chunk with that index is
    /// already loaded, in which case nothing changes.
    pub fn gen_chunk(&mut self, i: ChunkIndex, heights: &Vec<u32>)
        requires
            old(self).wf(),
            heights@.len() == CHUNK_DIM * CHUNK_DIM,
        ensures
            final(self).wf(),
            loaded(old(self)@, i) ==> final(self)@ == old(self)@,
            !loaded(old(self)@, i) ==> {
                &&& final(self)@.len() == old(self)@.len() + 1
                &&& final(self)@.drop_last() == old(self)@
                &&& final(self)@.last().0 == i
                &&& final(self)@.last().2
                &&& final(self)@.last().3 == unbuilt()
                &&& forall|x: int, y: int, z: int|
                    in_chunk(x, y, z) ==> #[trigger] final(self)@.last().1[voxel_offset(x, y, z)]
                        == column_voxel(y, heights@[column_offset(x, z)] as int)
            },
    {
        if !self.has_chunk(i) {
            let chunk = Chunk::from_column_heights(heights);
            let ghost cells = chunk.cells();
            assert forall|x: int, y: int, z: int| in_chunk(x, y, z) implies #[trigger] cells[voxel_offset(x, y, z)]
                == column_voxel(y, heights@[column_offset(x, z)] as int) by {
                assert(chunk.cell(x, y, z) == cells[voxel_offset(x, y, z)]);
            }
            self.insert_chunk(i, chunk);
            assert(self@.drop_last() =~= old(self)@);
        }
    }

    /// The chunk with index `i`, which must be loaded.
    pub fn chunk(&self, i: ChunkIndex) -> (r: &Chunk)
        requires
            self.wf(),
            loaded(self@, i),
        ensures
            r.wf(),
            r.cells() == cells_of(self@, i),
            r.dirty() == self@[position_of(self@, i)].2,
    {
        let k = self.find(&i).unwrap();
        proof {
            lemma_position_unique(self@, i, k as int);
        }
        &self.chunks[k].1
    }

    /// The voxel at global position `index`. Its chunk must be loaded, and its
    /// height inside the chunk.
    pub fn voxel(&self, index: VoxelIndex) -> (r: Voxel)
        requires
            self.wf(),
            loaded(self@, index.chunk()),
            0 <= index.0.y < CHUNK_HEIGHT,
        ensures
            r == cells_of(self@, index.chunk())[voxel_offset(
                index.local().x,
                index.local().y,
                index.local().z,
            )],
    {
        let i = index.local_part();
        *self.chunk(index.chunk_index()).voxel(i.x as u32, i.y as u32, i.z as u32)
    }

    /// Mutable access to the voxel at global position `index`, whose chunk
    /// must be loaded; that chunk is marked dirty.
    pub fn voxel_mut(&mut self, index: VoxelIndex) -> (r: &mut Voxel)
        requires
            old(self).wf(),
            loaded(old(self)@, index.chunk()),
            0 <= index.0.y < CHUNK_HEIGHT,
        ensures
            ({
                let k = position_of(old(self)@, index.chunk());
                let off = voxel_offset(index.local().x, index.local().y, index.local().z);
                &&& *r == old(self)@[k].1[off]
                &&& final(self)@ == old(self)@.update(
                    k,
                    (old(self)@[k].0, old(self)@[k].1.update(off, *final(r)), true, old(self)@[k].3),
                )
            }),
            final(self).wf(),
    {
        let i = index.local_part();
        let ci = index.chunk_index();
        let k = self.find(&ci).unwrap();
        proof {
            lemma_position_unique(old(self)@, ci, k as int);
            assert(old(self).chunks@[k as int].1.wf());
        }
        self.chunks[k].1.voxel_mut(i.x as u32, i.y as u32, i.z as u32)
    }

    /// First step of a render pass: for each entry, in order, the geometry to
    /// upload if the chunk is dirty, and nothing if its uploaded geometry is
    /// still current.
    pub fn pending_meshes(&self) -> (r: Vec<Option<ChunkMesh>>)
        requires
            self.wf(),
        ensures
            r@.len() == self@.len(),
            forall|k: int| 0 <= k < self@.len() ==> (#[trigger] r@[k] is Some) == self@[k].2,
            forall|k: int|
                0 <= k < self@.len() && #[trigger] r@[k] is Some ==> (r@[k]->0.vertices@, r@[k]->0.indices@)
                    == chunk_mesh(self@[k].1),
    {
        let mut r: Vec<Option<ChunkMesh>> = Vec::new();
        let mut k: usize = 0;
        while k < self.chunks.len()
            invariant
                0 <= k <= self.chunks@.len(),
                self@.len() == self.chunks@.len(),
                well_formed(self@),
                r@.len() == k,
                forall|j: int| 0 <= j < k ==> (#[trigger] r@[j] is Some) == self@[j].2,
                forall|j: int|
                    0 <= j < k && #[trigger] r@[j] is Some ==> (r@[j]->0.vertices@, r@[j]->0.indices@)
                        == chunk_mesh(self@[j].1),
            decreases self.chunks@.len() - k,
        {
            assert(self@[k as int].1.len() == CHUNK_N_VOXELS);
            let chunk = &self.chunks[k].1;
            if chunk.is_dirty() {
                r.push(Some(chunk.gen_vertex_array()));
            } else {
                r.push(None);
            }
            k += 1;
        }
        r
    }

    /// Second step of a render pass: entry `k` takes the render data
    /// `built[k]`, where present, and is then clean. Returns, for each entry in
    /// order, its index and the render data to draw it with.
    pub fn finish_render(&mut self, built: &Vec<Option<ChunkRenderdata>>) -> (r: Vec<(ChunkIndex, ChunkRenderdata)>)
        requires
            old(self).wf(),
        ensures
            final(self).wf(),
            final(self)@ == rendered(old(self)@, built@),
            r@ == final(self)@.map_values(|e: EntryView| (e.0, e.3)),
    {
        let mut draws: Vec<(ChunkIndex, ChunkRenderdata)> = Vec::new();
        let mut k: usize = 0;
        while k < self.chunks.len()
            invariant
                0 <= k <= self.chunks@.len(),
                self.chunks@.len() == old(self).chunks@.len(),
                self@.len() == self.chunks@.len(),
                old(self)@.len() == old(self).chunks@.len(),
                forall|j: int| 0 <= j < k ==> #[trigger] self@[j] == rendered(old(self)@, built@)[j],
                forall|j: int| k <= j < self@.len() ==> #[trigger] self@[j] == old(self)@[j],
                draws@ == self@.take(k as int).map_values(|e: EntryView| (e.0, e.3)),
            decreases self.chunks@.len() - k,
        {
            let ghost before = self@;
            if k < built.len() {
                match built[k] {
                    Some(rd) => {
                        self.chunks[k].1.mark_built();
                        self.chunks[k].2 = rd;
                        assert(self@ =~= before.update(k as int, (before[k as int].0, before[k as int].1, false, rd)));
                    },
                    None => {},
                }
            }
            assert(self@[k as int] == rendered(old(self)@, built@)[k as int]);
            draws.push((self.chunks[k].0, self.chunks[k].2));
            assert(self@.take(k + 1).map_values(|e: EntryView| (e.0, e.3)) =~= self@.take(k as int).map_values(
                |e: EntryView| (e.0, e.3),
            ).push((self@[k as int].0, self@[k as int].3)));
            k += 1;
        }
        assert(self@ =~= rendered(old(self)@, built@));
        assert(self@.take(self@.len() as int) =~= self@);
        draws
    }
}

/// Rendering twice with no voxel changed in between rebuilds geometry only in
/// the first pass. If a pass uploads geometry for exactly the entries that
/// ask for it (the dirty ones), no entry is dirty afterwards; a second pass
/// then asks for and uploads nothing, and leaves the world as it was.
pub proof fn lemma_render_twice(
    s: Seq<EntryView>,
    built: Seq<Option<ChunkRenderdata>>,
    again: Seq<Option<ChunkRenderdata>>,
)
    requires
        built.len() == s.len(),
        forall|k: int| 0 <= k < s.len() ==> (#[trigger] built[k] is Some) == s[k].2,
        again.len() == s.len(),
        forall|k: int| 0 <= k < s.len() ==> (#[trigger] again[k] is Some) == rendered(s, built)[k].2,
    ensures
        forall|k: int| 0 <= k < s.len() ==> !(#[trigger] rendered(s, built)[k]).2,
        forall|k: int| 0 <= k < s.len() ==> #[trigger] again[k] is None,
        rendered(rendered(s, built), again) == rendered(s, built),
{
    let once = rendered(s, built);
    assert forall|k: int| 0 <= k < s.len() implies !(#[trigger] rendered(s, built)[k]).2 by {
        if !(built[k] is Some) {
            assert(!s[k].2);
        }
    }
    assert forall|k: int| 0 <= k < s.len() implies #[trigger] again[k] is None by {
        assert(!once[k].2);
    }
    assert(rendered(once, again) =~= once);
}

} // verus!
