//! Integer logic of a voxel renderer: instance packing for the GPU, block
//! sets and their face instances, chunk bookkeeping, and the decisions of the
//! player controller.
pub mod rendering;
pub mod terrain;
pub mod movement;
