//! Whether the player would walk into a block.
use vstd::prelude::*;
use crate::rendering::block::{Block, BlockSet, BlockTexture, new_block};
use crate::rendering::instance::Position;
use crate::terrain::chunk::CHUNK_SIZE;

verus! {

/// A block of one of the three textures, made by `Block::new`, stands at
/// `position` in `blocks`.
pub open spec fn has_any_block(position: Position, blocks: Set<Block>) -> bool {
    let b = new_block(position.x, position.y, position.z);
    ||| blocks.contains(Block { texture: BlockTexture::Moss, ..b })
    ||| blocks.contains(Block { texture: BlockTexture::Dirt, ..b })
    ||| blocks.contains(Block { texture: BlockTexture::Stone, ..b })
}

/// The position inside the chunk of the block the player would stand in:
/// x and z taken modulo the chunk size, y as it is.
pub open spec fn block_in_chunk(future_block: (u8, u8, u8)) -> Position {
    Position { x: future_block.0 % 32, y: future_block.1, z: future_block.2 % 32 }
}

/// Decides which axes of a move are blocked. `future_block` is the block
/// the player's feet would be in after the move (x, y - 2.5 and z of the
/// future position, each cast to a byte), and `moved` tells, per axis,
/// whether the move changes that coordinate. If a moss, dirt or stone
/// block made by `Block::new` stands at that block's place inside the
/// chunk, the moved axes are the blocked ones; otherwise none is.
pub fn check_player_block(future_block: (u8, u8, u8), moved: (bool, bool, bool), blocks: &BlockSet) -> (blocked: (
    bool,
    bool,
    bool,
))
    ensures
        blocked == if has_any_block(block_in_chunk(future_block), blocks@) {
            moved
        } else {
            (false, false, false)
        },
{
    let future_block_position = Position {
        x: future_block.0 % CHUNK_SIZE,
        y: future_block.1,
        z: future_block.2 % CHUNK_SIZE,
    };
    if !containts_any_block(future_block_position, blocks) {
        return (false, false, false);
    }
    moved
}

/// Whether a moss, dirt or stone block made by `Block::new` stands at
/// `block_position`; the three textures are tried in that order.
pub fn containts_any_block(block_position: Position, blocks: &BlockSet) -> (found: bool)
    ensures
        found == has_any_block(block_position, blocks@),
{
    let mut block = Block::new(block_position.x, block_position.y, block_position.z);
    block.texture = BlockTexture::Moss;
    if blocks.contains(&block) {
        return true;
    }
    block.texture = BlockTexture::Dirt;
    if blocks.contains(&block) {
        return true;
    }
    block.texture = BlockTexture::Stone;
    if blocks.contains(&block) {
        return true;
    }
    false
}

/// A position counts as occupied exactly when the set holds a block there
/// with no visible face, of any texture: moss, dirt or stone.
pub proof fn lemma_any_block_means_any_texture(position: Position, blocks: Set<Block>)
    ensures
        has_any_block(position, blocks) <==> exists|t: BlockTexture|
            blocks.contains(
                Block {
                    position: (position.x, position.y, position.z),
                    texture: t,
                    visible_faces: 0,
                },
            ),
        blocks.contains(
            Block { position: (position.x, position.y, position.z), texture: BlockTexture::Stone, visible_faces: 0 },
        ) ==> has_any_block(position, blocks),
        blocks.contains(
            Block { position: (position.x, position.y, position.z), texture: BlockTexture::Dirt, visible_faces: 0 },
        ) ==> has_any_block(position, blocks),
        blocks.contains(
            Block { position: (position.x, position.y, position.z), texture: BlockTexture::Moss, visible_faces: 0 },
        ) ==> has_any_block(position, blocks),
{
    if exists|t: BlockTexture|
        blocks.contains(
            Block { position: (position.x, position.y, position.z), texture: t, visible_faces: 0 },
        ) {
        let t = choose|t: BlockTexture|
            blocks.contains(
                Block { position: (position.x, position.y, position.z), texture: t, visible_faces: 0 },
            );
        match t {
            BlockTexture::Stone => {},
            BlockTexture::Dirt => {},
            BlockTexture::Moss => {},
        }
    }
}

/// A move is blocked, on the axes it moves along, exactly when a block with
/// no visible face stands at the target block's place in the chunk: x and
/// z reduced below 32, y unchanged. Otherwise nothing is blocked.
pub proof fn lemma_blocked_axes(future_block: (u8, u8, u8), moved: (bool, bool, bool), blocks: Set<Block>)
    ensures
        ({
            let p = block_in_chunk(future_block);
            let occupied = exists|t: BlockTexture|
                blocks.contains(Block { position: (p.x, p.y, p.z), texture: t, visible_faces: 0 });
            &&& p.x < 32 && p.z < 32 && p.y == future_block.1
            &&& p.x as int == future_block.0 as int - 32 * (future_block.0 as int / 32)
            &&& p.z as int == future_block.2 as int - 32 * (future_block.2 as int / 32)
            &&& (if has_any_block(p, blocks) { moved } else { (false, false, false) }) == (
            if occupied {
                moved
            } else {
                (false, false, false)
            })
        }),
{
    lemma_any_block_means_any_texture(block_in_chunk(future_block), blocks);
}

} // verus!
