# voxel_engine

The integer logic of a small voxel renderer, verified with Verus, and the
program around it.

- `src/rendering/instance.rs`: faces and the packing of a face instance into
  one 32-bit word (`fffxxxxxxyyyyyyzzzzzz`), with proofs that every field
  reads back and that packing is injective for in-chunk positions.
- `src/rendering/block.rs`: blocks, the instances of their visible faces, and
  `BlockSet`, a `HashSet` of packed block keys viewed as a set of blocks.
- `src/rendering/culling.rs`: the instances of all blocks of a set, with a
  proof that they do not depend on the set's order (as a multiset).
- `src/rendering/mod.rs`: the per-frame decision of which chunk to generate
  next, with proofs that it stops exactly inside the camera's chunk and
  reaches it in as many steps as the chunks are apart.
- `src/terrain/`: the corners whose gradients seed the terrain noise, the
  bounds of a chunk, and a chunk's mesh data.
- `src/movement/`: key handling, the per-tick decisions of the player
  controller (with a proof that jumps are at least the cooldown apart),
  the ground check and the collision check.
- `app/`: the window, the GPU buffers and passes, and the floating-point
  motion, which call into the library.
