//! Rendering-side bookkeeping: which chunk the camera stands in, and the
//! block and instance types that the chunk meshes are made of.
pub mod block;
pub mod culling;
pub mod instance;

use vstd::prelude::*;

verus! {

/// Width of a chunk along x, in blocks.
pub const CHUNK_SIZE_X: i32 = 32;

/// Height of a chunk, in blocks.
pub const CHUNK_SIZE_Y: i32 = 128;

/// Depth of a chunk along z, in blocks.
pub const CHUNK_SIZE_Z: i32 = 32;

/// The chunk coordinate that holds block coordinate `p` along x or z.
pub open spec fn chunk_coord(p: int) -> int {
    p / 32
}

/// Chunk coordinates for which the bounds `c * 32` and `(c + 1) * 32` of
/// the chunk, and its neighbours' coordinates, fit in an `i32`.
pub open spec fn chunk_coord_in_range(c: int) -> bool {
    -67108864 <= c <= 67108862
}

/// The chunk the current chunk moves to when the camera stands on block
/// column `camera`: one step along x toward the camera's chunk if it lies in
/// another column of chunks, else one step along z, else none.
pub open spec fn chunk_step(current: (int, int), camera: (int, int)) -> Option<(int, int)> {
    let tx = chunk_coord(camera.0);
    let tz = chunk_coord(camera.1);
    if tx > current.0 {
        Some((current.0 + 1, current.1))
    } else if tx < current.0 {
        Some((current.0 - 1, current.1))
    } else if tz > current.1 {
        Some((current.0, current.1 + 1))
    } else if tz < current.1 {
        Some((current.0, current.1 - 1))
    } else {
        None
    }
}

/// Both coordinates as integers.
pub open spec fn as_int_pair(p: (i32, i32)) -> (int, int) {
    (p.0 as int, p.1 as int)
}

/// Decides, once per frame, whether the camera has left the current chunk:
/// given the current chunk and the block column `(floor x, floor z)` of the
/// camera, returns the chunk to generate next, one step toward the camera,
/// or `None` when the camera is still inside the current chunk.
pub fn next_chunk(current: (i32, i32), camera_block: (i32, i32)) -> (next: Option<(i32, i32)>)
    requires
        chunk_coord_in_range(current.0 as int),
        chunk_coord(camera_block.0 as int) == current.0 ==> chunk_coord_in_range(current.1 as int),
    ensures
        match next {
            Some(n) => chunk_step(as_int_pair(current), as_int_pair(camera_block)) == Some(
                as_int_pair(n),
            ),
            None => chunk_step(as_int_pair(current), as_int_pair(camera_block)) is None,
        },
{
    let (cx, cz) = current;
    let (px, pz) = camera_block;
    if px > ((cx + 1) * CHUNK_SIZE_X) - 1 {
        Some((cx + 1, cz))
    } else if px < cx * CHUNK_SIZE_X {
        Some((cx - 1, cz))
    } else if pz > ((cz + 1) * CHUNK_SIZE_Z) - 1 {
        Some((cx, cz + 1))
    } else if pz < cz * CHUNK_SIZE_Z {
        Some((cx, cz - 1))
    } else {
        None
    }
}

/// The chunk that holds block column `camera`.
pub open spec fn camera_chunk(camera: (int, int)) -> (int, int) {
    (chunk_coord(camera.0), chunk_coord(camera.1))
}

/// Number of chunk steps, along x and z, between two chunks.
pub open spec fn chunk_distance(a: (int, int), b: (int, int)) -> nat {
    (vstd::math::abs(a.0 - b.0) + vstd::math::abs(a.1 - b.1)) as nat
}

/// The current chunk after `k` frames with the camera standing still on
/// block column `camera`.
pub open spec fn chunk_after(current: (int, int), camera: (int, int), k: nat) -> (int, int)
    decreases k,
{
    if k == 0 {
        current
    } else {
        match chunk_step(current, camera) {
            Some(n) => chunk_after(n, camera, (k - 1) as nat),
            None => current,
        }
    }
}

/// No new chunk is asked for exactly when the camera stands inside the
/// current chunk.
pub proof fn lemma_no_step_iff_inside(current: (int, int), camera: (int, int))
    ensures
        chunk_step(current, camera) is None <==> current == camera_chunk(camera),
{
}

/// A new chunk is a neighbour of the current one, one step closer to the
/// camera's chunk.
pub proof fn lemma_step_approaches_camera(current: (int, int), camera: (int, int))
    ensures
        chunk_step(current, camera) matches Some(n) ==> {
            &&& chunk_distance(current, n) == 1
            &&& chunk_distance(n, camera_chunk(camera)) + 1 == chunk_distance(
                current,
                camera_chunk(camera),
            )
        },
{
}

/// With the camera standing still, the current chunk reaches the camera's
/// chunk after as many frames as the chunks are apart, and stays there.
pub proof fn lemma_chunk_reaches_camera(current: (int, int), camera: (int, int), k: nat)
    requires
        k >= chunk_distance(current, camera_chunk(camera)),
    ensures
        chunk_after(current, camera, k) == camera_chunk(camera),
    decreases k,
{
    if k > 0 {
        lemma_step_approaches_camera(current, camera);
        match chunk_step(current, camera) {
            Some(n) => lemma_chunk_reaches_camera(n, camera, (k - 1) as nat),
            None => {},
        }
    }
}

} // verus!
