//! A chunk of blocks and the data its mesh is drawn from.
use vstd::prelude::*;
use crate::rendering::block::{Block, BlockSet, enumerates, instances_of_blocks};
use crate::rendering::chunk_coord_in_range;
use crate::rendering::culling::instances_of;
use crate::rendering::instance::{Instance, InstanceRaw, raw_value};

verus! {

/// Side of a chunk along x and z, in blocks.
pub const CHUNK_SIZE: u8 = 32;

/// The corners of the region that the terrain of the chunk at `position`
/// is generated in: from `(32 x, 0, 32 z)` to `(32 (x + 1), 128, 32 (z + 1))`.
pub fn chunk_bounds(position: (i32, i32)) -> (bounds: ((i32, i32, i32), (i32, i32, i32)))
    requires
        chunk_coord_in_range(position.0 as int),
        chunk_coord_in_range(position.1 as int),
    ensures
        bounds.0.0 == position.0 * 32,
        bounds.0.1 == 0,
        bounds.0.2 == position.1 * 32,
        bounds.1.0 == (position.0 + 1) * 32,
        bounds.1.1 == 128,
        bounds.1.2 == (position.1 + 1) * 32,
{
    let start = (position.0 * CHUNK_SIZE as i32, 0, position.1 * CHUNK_SIZE as i32);
    let end = ((position.0 + 1) * CHUNK_SIZE as i32, 128, (position.1 + 1) * CHUNK_SIZE as i32);
    (start, end)
}

/// The packed words of a sequence of instances.
pub open spec fn raw_words(instances: Seq<Instance>) -> Seq<InstanceRaw> {
    instances.map_values(|i: Instance| InstanceRaw(raw_value(i) as u32))
}

/// The position rows `[x, y, z, 0]` of the blocks that show at least one
/// face, in order.
pub open spec fn visible_block_rows(blocks: Seq<Block>) -> Seq<[u32; 4]>
    decreases blocks.len(),
{
    if blocks.len() == 0 {
        seq![]
    } else {
        let b = blocks.last();
        visible_block_rows(blocks.drop_last()) + if b.visible_faces > 0 {
            seq![[b.position.0 as u32, b.position.1 as u32, b.position.2 as u32, 0u32]]
        } else {
            seq![]
        }
    }
}

proof fn lemma_rows_of_sequence(blocks: Seq<Block>, r: [u32; 4])
    ensures
        visible_block_rows(blocks).contains(r) <==> exists|i: int|
            0 <= i < blocks.len() && blocks[i].visible_faces != 0 && r == [
                blocks[i].position.0 as u32,
                blocks[i].position.1 as u32,
                blocks[i].position.2 as u32,
                0u32,
            ],
    decreases blocks.len(),
{
    if blocks.len() > 0 {
        let front = blocks.drop_last();
        let b = blocks.last();
        lemma_rows_of_sequence(front, r);
        let last_rows = if b.visible_faces > 0 {
            seq![[b.position.0 as u32, b.position.1 as u32, b.position.2 as u32, 0u32]]
        } else {
            seq![]
        };
        let all = visible_block_rows(front) + last_rows;
        assert(visible_block_rows(blocks) == all);
        if all.contains(r) {
            let k = choose|k: int| 0 <= k < all.len() && all[k] == r;
            if k < visible_block_rows(front).len() {
                assert(visible_block_rows(front)[k] == r);
                assert(visible_block_rows(front).contains(r));
                let i = choose|i: int|
                    0 <= i < front.len() && front[i].visible_faces != 0 && r == [
                        front[i].position.0 as u32,
                        front[i].position.1 as u32,
                        front[i].position.2 as u32,
                        0u32,
                    ];
                assert(blocks[i] == front[i]);
            } else {
                assert(last_rows[k - visible_block_rows(front).len()] == r);
                assert(blocks[blocks.len() - 1] == b);
            }
        }
        if exists|i: int|
            0 <= i < blocks.len() && blocks[i].visible_faces != 0 && r == [
                blocks[i].position.0 as u32,
                blocks[i].position.1 as u32,
                blocks[i].position.2 as u32,
                0u32,
            ] {
            let i = choose|i: int|
                0 <= i < blocks.len() && blocks[i].visible_faces != 0 && r == [
                    blocks[i].position.0 as u32,
                    blocks[i].position.1 as u32,
                    blocks[i].position.2 as u32,
                    0u32,
                ];
            if i < front.len() {
                assert(front[i] == blocks[i]);
                assert(visible_block_rows(front).contains(r));
                let k = choose|k: int|
                    0 <= k < visible_block_rows(front).len() && visible_block_rows(front)[k] == r;
                assert(all[k] == r);
            } else {
                assert(blocks[i] == b);
                assert(last_rows[0] == r);
                assert(all[visible_block_rows(front).len() as int] == r);
            }
        }
    }
}

/// The rows made from a listing of a set are exactly the rows `[x, y, z, 0]`
/// of the set's blocks that show at least one face.
pub proof fn lemma_rows_are_visible_blocks(order: Seq<Block>, set: Set<Block>, r: [u32; 4])
    requires
        enumerates(order, set),
    ensures
        visible_block_rows(order).contains(r) <==> exists|b: Block|
            set.contains(b) && b.visible_faces != 0 && r == [
                b.position.0 as u32,
                b.position.1 as u32,
                b.position.2 as u32,
                0u32,
            ],
{
    lemma_rows_of_sequence(order, r);
    if visible_block_rows(order).contains(r) {
        let i = choose|i: int|
            0 <= i < order.len() && order[i].visible_faces != 0 && r == [
                order[i].position.0 as u32,
                order[i].position.1 as u32,
                order[i].position.2 as u32,
                0u32,
            ];
        assert(order.to_set().contains(order[i]));
    }
    if exists|b: Block|
        set.contains(b) && b.visible_faces != 0 && r == [
            b.position.0 as u32,
            b.position.1 as u32,
            b.position.2 as u32,
            0u32,
        ] {
        let b = choose|b: Block|
            set.contains(b) && b.visible_faces != 0 && r == [
                b.position.0 as u32,
                b.position.1 as u32,
                b.position.2 as u32,
                0u32,
            ];
        assert(order.to_set().contains(b));
        let i = choose|i: int| 0 <= i < order.len() && order[i] == b;
        assert(order[i].visible_faces != 0);
    }
}

/// A chunk: its position in chunk coordinates, its blocks, and the data
/// that its mesh is drawn from.
pub struct Chunk {
    pub position: (i32, i32),
    pub blocks: BlockSet,
    /// One packed word per visible face.
    pub instance_data: Vec<InstanceRaw>,
    /// One row `[x, y, z, 0]` per block with a visible face.
    pub block_data: Vec<[u32; 4]>,
    /// The number of instances, as the draw call takes it.
    pub num_instances: u32,
}

impl Chunk {
    /// Builds the mesh data of the chunk at `position` from its blocks: the
    /// packed instances of every visible face and the rows of the blocks
    /// that show a face, both taken block after block in one order of the
    /// set.
    pub fn new(position: (i32, i32), blocks: BlockSet) -> (chunk: Chunk)
        ensures
            chunk.position == position,
            chunk.blocks@ == blocks@,
            exists|order: Seq<Block>|
                {
                    &&& enumerates(order, blocks@)
                    &&& chunk.instance_data@ == raw_words(instances_of_blocks(order))
                    &&& chunk.block_data@ == visible_block_rows(order)
                },
            chunk.num_instances == chunk.instance_data@.len() as u32,
            forall|r: [u32; 4]|
                #[trigger] chunk.block_data@.contains(r) <==> exists|b: Block|
                    blocks@.contains(b) && b.visible_faces != 0 && r == [
                        b.position.0 as u32,
                        b.position.1 as u32,
                        b.position.2 as u32,
                        0u32,
                    ],
    {
        let order = blocks.to_vec();
        let instances = instances_of(&order);
        let mut instance_data: Vec<InstanceRaw> = Vec::new();
        for i in 0..instances.len()
            invariant
                instance_data@ == raw_words(instances@.take(i as int)),
        {
            instance_data.push(instances[i].as_raw());
            assert(raw_words(instances@.take(i + 1)) =~= raw_words(instances@.take(i as int)).push(
                InstanceRaw(raw_value(instances@[i as int]) as u32),
            ));
        }
        assert(instances@.take(instances.len() as int) == instances@);
        let mut block_data: Vec<[u32; 4]> = Vec::new();
        for i in 0..order.len()
            invariant
                block_data@ == visible_block_rows(order@.take(i as int)),
        {
            let b = order[i];
            if b.visible_faces > 0 {
                block_data.push([b.position.0 as u32, b.position.1 as u32, b.position.2 as u32, 0]);
            }
            assert(order@.take(i + 1).drop_last() == order@.take(i as int));
        }
        assert(order@.take(order.len() as int) == order@);
        assert forall|r: [u32; 4]|
            #[trigger] block_data@.contains(r) <==> exists|b: Block|
                blocks@.contains(b) && b.visible_faces != 0 && r == [
                    b.position.0 as u32,
                    b.position.1 as u32,
                    b.position.2 as u32,
                    0u32,
                ] by {
            lemma_rows_are_visible_blocks(order@, blocks@, r);
        }
        let num_instances = instance_data.len() as u32;
        Chunk { position, blocks, instance_data, block_data, num_instances }
    }
}

} // verus!
