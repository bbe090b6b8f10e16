use vstd::prelude::*;

use vstd::arithmetic::div_mod::lemma_fundamental_div_mod;

use crate::chunk::CHUNK_DIM;
use crate::vector::{fits_i32, Vector2, Vector3};

verus! {

/// Floored integer division: rounds toward negative infinity, so that
/// `floor_div(-1, 8) == -1`. (For a positive `d` this is `/` on `int`.)
pub open spec fn floor_div(a: int, d: int) -> int
    recommends
        d > 0,
{
    a / d
}

/// Position of the global coordinate `a` inside its chunk, along x or z.
pub open spec fn local(a: int) -> int {
    a - floor_div(a, CHUNK_DIM as int) * CHUNK_DIM
}

/// A chunk's position on the horizontal grid: `0.x` counts chunks along x,
/// `0.y` along z.
#[derive(Clone, Copy, Debug, PartialEq, Eq)]
pub struct ChunkIndex(pub Vector2<i32>);

impl ChunkIndex {
    pub fn new(x: i32, z: i32) -> (r: ChunkIndex)
        ensures
            r.0.x == x,
            r.0.y == z,
    {
        ChunkIndex(Vector2::new(x, z))
    }

    /// The global voxel coordinates of the chunk's local `(0, 0, 0)`.
    pub open spec fn origin(self) -> Vector3<int> {
        Vector3 { x: self.0.x * CHUNK_DIM, y: 0, z: self.0.y * CHUNK_DIM }
    }

    /// The chunk's origin can be written with `i32` coordinates.
    pub open spec fn origin_fits(self) -> bool {
        fits_i32(self.origin().x) && fits_i32(self.origin().z)
    }

    /// Equality of chunk indices, field by field.
    pub(crate) fn same(&self, other: &ChunkIndex) -> (r: bool)
        ensures
            r == (*self == *other),
    {
        self.0.x == other.0.x && self.0.y == other.0.y
    }

    pub fn chunk_origin(self) -> (r: Vector3<i32>)
        requires
            self.origin_fits(),
        ensures
            r.x == self.origin().x,
            r.y == self.origin().y,
            r.z == self.origin().z,
    {
        Vector3::new(self.0.x * CHUNK_DIM as i32, 0, self.0.y * CHUNK_DIM as i32)
    }
}

/// A chunk index from its `(x, z)` grid coordinates.
impl From<(i32, i32)> for ChunkIndex {
    fn from(v: (i32, i32)) -> (r: ChunkIndex) {
        ChunkIndex(Vector2::new(v.0, v.1))
    }
}

impl vstd::std_specs::convert::FromSpecImpl<(i32, i32)> for ChunkIndex {
    open spec fn obeys_from_spec() -> bool {
        true
    }

    open spec fn from_spec(v: (i32, i32)) -> ChunkIndex {
        ChunkIndex(Vector2 { x: v.0, y: v.1 })
    }
}

/// A cell's position in global voxel coordinates.
#[derive(Clone, Copy, Debug, PartialEq, Eq)]
pub struct VoxelIndex(pub Vector3<i32>);

/// `floor_div(a, CHUNK_DIM)` on machine integers.
fn floor_div_dim(a: i32) -> (r: i32)
    ensures
        r == floor_div(a as int, CHUNK_DIM as int),
{
    if a >= 0 {
        a / 8
    } else {
        let m: i32 = -(a + 1);
        -(m / 8) - 1
    }
}

impl VoxelIndex {
    pub fn new(x: i32, y: i32, z: i32) -> (r: VoxelIndex)
        ensures
            r.0.x == x,
            r.0.y == y,
            r.0.z == z,
    {
        VoxelIndex(Vector3::new(x, y, z))
    }

    /// The chunk that holds this voxel.
    pub open spec fn chunk(self) -> ChunkIndex {
        ChunkIndex(
            Vector2 {
                x: floor_div(self.0.x as int, CHUNK_DIM as int) as i32,
                y: floor_div(self.0.z as int, CHUNK_DIM as int) as i32,
            },
        )
    }

    /// The voxel's position inside its chunk.
    pub open spec fn local(self) -> Vector3<int> {
        Vector3 { x: local(self.0.x as int), y: self.0.y as int, z: local(self.0.z as int) }
    }

    pub fn chunk_index(&self) -> (r: ChunkIndex)
        ensures
            r == self.chunk(),
            r.0.x == floor_div(self.0.x as int, CHUNK_DIM as int),
            r.0.y == floor_div(self.0.z as int, CHUNK_DIM as int),
            r.origin_fits(),
    {
        let r = ChunkIndex(Vector2::new(floor_div_dim(self.0.x), floor_div_dim(self.0.z)));
        proof {
            lemma_fundamental_div_mod(self.0.x as int, 8);
            lemma_fundamental_div_mod(self.0.z as int, 8);
        }
        r
    }

    /// The voxel's position relative to its chunk's origin; along x and z it
    /// always lies in `[0, CHUNK_DIM)`.
    pub fn local_part(&self) -> (r: Vector3<i32>)
        ensures
            r.x == self.local().x,
            r.y == self.local().y,
            r.z == self.local().z,
            0 <= r.x < CHUNK_DIM,
            0 <= r.z < CHUNK_DIM,
    {
        let origin = self.chunk_index().chunk_origin();
        proof {
            lemma_floor_div_local(self.0.x as int);
            lemma_floor_div_local(self.0.z as int);
        }
        Vector3::new(self.0.x - origin.x, self.0.y - origin.y, self.0.z - origin.z)
    }
}

/// Floored division and the local part split any integer:
/// `floor_div(x, CHUNK_DIM) * CHUNK_DIM + local(x) == x`, with `local(x)` in
/// `[0, CHUNK_DIM)`.
pub proof fn lemma_floor_div_local(x: int)
    ensures
        floor_div(x, CHUNK_DIM as int) * CHUNK_DIM + local(x) == x,
        0 <= local(x) < CHUNK_DIM,
{
    lemma_fundamental_div_mod(x, 8);
}

/// A voxel is its chunk's origin plus its local part, for every voxel index.
pub proof fn lemma_origin_plus_local(v: VoxelIndex)
    ensures
        v.chunk().origin().x + v.local().x == v.0.x,
        v.chunk().origin().y + v.local().y == v.0.y,
        v.chunk().origin().z + v.local().z == v.0.z,
        0 <= v.local().x < CHUNK_DIM,
        0 <= v.local().z < CHUNK_DIM,
{
    lemma_floor_div_local(v.0.x as int);
    lemma_floor_div_local(v.0.z as int);
    lemma_fundamental_div_mod(v.0.x as int, 8);
    lemma_fundamental_div_mod(v.0.z as int, 8);
}

} // verus!
