//! Terrain generation inputs: the lattice corners of a chunk whose gradient
//! vectors seed the noise.
pub mod chunk;

use vstd::prelude::*;
use crate::rendering::{CHUNK_SIZE_X, CHUNK_SIZE_Y, CHUNK_SIZE_Z, chunk_coord_in_range};

verus! {

/// A point of the block grid.
#[derive(Debug, Clone, Copy, PartialEq, Eq, Structural)]
pub struct Point3 {
    pub x: i32,
    pub y: i32,
    pub z: i32,
}

/// A grid point from integer coordinates.
pub open spec fn point(x: int, y: int, z: int) -> Point3 {
    Point3 { x: x as i32, y: y as i32, z: z as i32 }
}

/// The eight corners of the chunk at `chunk_position` whose random gradient
/// vectors the terrain noise interpolates, in the order the generation
/// shader reads them: corner `i` is on the far side along x, y and z for
/// bits 0, 1 and 2 of `i` (x by 32 blocks, y by 128, z by 32).
pub fn gradient_corners(chunk_position: (i32, i32)) -> (corners: [Point3; 8])
    requires
        chunk_coord_in_range(chunk_position.0 as int),
        chunk_coord_in_range(chunk_position.1 as int),
    ensures
        ({
            let x0 = chunk_position.0 * 32;
            let z0 = chunk_position.1 * 32;
            corners@ == seq![
                point(x0, 0, z0),
                point(x0 + 32, 0, z0),
                point(x0, 128, z0),
                point(x0 + 32, 128, z0),
                point(x0, 0, z0 + 32),
                point(x0 + 32, 0, z0 + 32),
                point(x0, 128, z0 + 32),
                point(x0 + 32, 128, z0 + 32),
            ]
        }),
{
    let x0 = chunk_position.0 * CHUNK_SIZE_X;
    let x1 = chunk_position.0 * CHUNK_SIZE_X + CHUNK_SIZE_X;
    let z0 = chunk_position.1 * CHUNK_SIZE_Z;
    let z1 = chunk_position.1 * CHUNK_SIZE_Z + CHUNK_SIZE_Z;
    let y1 = CHUNK_SIZE_Y;
    let corners = [
        Point3 { x: x0, y: 0, z: z0 },
        Point3 { x: x1, y: 0, z: z0 },
        Point3 { x: x0, y: y1, z: z0 },
        Point3 { x: x1, y: y1, z: z0 },
        Point3 { x: x0, y: 0, z: z1 },
        Point3 { x: x1, y: 0, z: z1 },
        Point3 { x: x0, y: y1, z: z1 },
        Point3 { x: x1, y: y1, z: z1 },
    ];
    assert(corners@ =~= seq![
        corners[0], corners[1], corners[2], corners[3],
        corners[4], corners[5], corners[6], corners[7],
    ]);
    corners
}

} // verus!
