use vstd::prelude::*;

verus! {

/// What fills a single cell of the world.
#[allow(non_camel_case_types)]
#[derive(Clone, Copy, Debug, PartialEq, Eq, Structural)]
pub enum VoxelType {
    VOID,
    GROUND,
}

/// One cell of a chunk: its terrain kind.
#[derive(Clone, Copy, Debug, PartialEq, Eq, Structural)]
pub struct Voxel {
    pub voxel_type: VoxelType,
}

impl Voxel {
    /// A cell counts as solid when it holds any terrain at all.
    pub open spec fn solid(self) -> bool {
        self.voxel_type != VoxelType::VOID
    }

    /// The empty cell.
    pub fn void() -> (r: Voxel)
        ensures
            r.voxel_type == VoxelType::VOID,
            !r.solid(),
    {
        Voxel { voxel_type: VoxelType::VOID }
    }

    pub fn is_solid(self) -> (r: bool)
        ensures
            r == self.solid(),
    {
        match self.voxel_type {
            VoxelType::VOID => false,
            _ => true,
        }
    }
}

} // verus!
