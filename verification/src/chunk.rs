//! The chunk data model: a fixed 32x32x32 grid of block-type identifiers,
//! stored row-major (height-major, then depth, then width), with the cell,
//! solidity and visibility predicates that the mesher is specified against.

use vstd::prelude::*;

verus! {

/// Side length of a chunk, in cells.
pub const CHUNK_SIZE: usize = 32;

/// Number of cells in one horizontal layer of a chunk.
pub const CHUNK_AREA: usize = 32 * 32;

/// Total number of cells in a chunk; the only accepted length for a
/// chunk's backing buffer.
pub const CHUNK_VOLUME: usize = 32 * 32 * 32;

/// The linear index of cell (x, y, z): height-major, then depth, then width.
pub open spec fn spec_chunk_index(x: int, y: int, z: int) -> int {
    y * (CHUNK_SIZE * CHUNK_SIZE) + z * CHUNK_SIZE + x
}

/// Whether (x, y, z) lies inside the grid.
pub open spec fn spec_in_bounds(x: int, y: int, z: int) -> bool {
    &&& 0 <= x < CHUNK_SIZE
    &&& 0 <= y < CHUNK_SIZE
    &&& 0 <= z < CHUNK_SIZE
}

/// The block-type identifier stored at (x, y, z); meaningful when the
/// coordinates are in bounds and `chunk` has the full chunk length.
pub open spec fn spec_cell(chunk: Seq<u32>, x: int, y: int, z: int) -> u32 {
    chunk[spec_chunk_index(x, y, z)]
}

/// A cell is solid when it lies inside the grid and holds a non-empty
/// block type; everything outside the grid counts as open air.
pub open spec fn spec_solid(chunk: Seq<u32>, x: int, y: int, z: int) -> bool {
    spec_in_bounds(x, y, z) && spec_cell(chunk, x, y, z) != 0
}

/// A cell is visible when it is non-empty and at least one of its six
/// axis-aligned neighbors is empty or out of bounds.
pub open spec fn spec_visible(chunk: Seq<u32>, x: int, y: int, z: int) -> bool {
    &&& spec_cell(chunk, x, y, z) != 0
    &&& {
        ||| !spec_solid(chunk, x + 1, y, z)
        ||| !spec_solid(chunk, x - 1, y, z)
        ||| !spec_solid(chunk, x, y + 1, z)
        ||| !spec_solid(chunk, x, y - 1, z)
        ||| !spec_solid(chunk, x, y, z + 1)
        ||| !spec_solid(chunk, x, y, z - 1)
    }
}

/// Convert 3D grid coordinates to the linear buffer index.
pub fn coord_to_index(x: usize, y: usize, z: usize) -> (i: usize)
    requires
        x < CHUNK_SIZE,
        y < CHUNK_SIZE,
        z < CHUNK_SIZE,
    ensures
        i == spec_chunk_index(x as int, y as int, z as int),
        i < CHUNK_VOLUME,
{
    y * (CHUNK_SIZE * CHUNK_SIZE) + z * CHUNK_SIZE + x
}

/// Whether a (possibly out-of-bounds) cell holds a block.
pub fn is_block_solid(chunk_data: &Vec<u32>, x: i32, y: i32, z: i32) -> (r: bool)
    requires
        chunk_data@.len() == CHUNK_VOLUME,
    ensures
        r == spec_solid(chunk_data@, x as int, y as int, z as int),
{
    if x < 0 || y < 0 || z < 0 || x >= CHUNK_SIZE as i32 || y >= CHUNK_SIZE as i32
        || z >= CHUNK_SIZE as i32 {
        return false;
    }
    let idx = coord_to_index(x as usize, y as usize, z as usize);
    chunk_data[idx] != 0
}

/// Whether the face of cell (x, y, z) toward (dx, dy, dz) is exposed, i.e.
/// the neighbor in that direction is empty or out of bounds.
pub fn is_face_visible(
    chunk_data: &Vec<u32>,
    x: i32,
    y: i32,
    z: i32,
    dx: i32,
    dy: i32,
    dz: i32,
) -> (r: bool)
    requires
        chunk_data@.len() == CHUNK_VOLUME,
        0 <= x < CHUNK_SIZE,
        0 <= y < CHUNK_SIZE,
        0 <= z < CHUNK_SIZE,
        -1 <= dx <= 1,
        -1 <= dy <= 1,
        -1 <= dz <= 1,
    ensures
        r == !spec_solid(chunk_data@, x + dx, y + dy, z + dz),
{
    !is_block_solid(chunk_data, x + dx, y + dy, z + dz)
}

} // verus!
