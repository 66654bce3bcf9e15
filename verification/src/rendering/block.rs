//! Blocks, their faces, and the set of blocks of a chunk.
use vstd::prelude::*;
use std::collections::HashSet;
use vstd::std_specs::iter::IteratorSpec;
use crate::rendering::instance::{Face, Instance, Position, face_code};

verus! {

broadcast use vstd::std_specs::hash::group_hash_axioms;

/// The texture a block is drawn with.
#[derive(Debug, Clone, Copy, PartialEq, Eq, Structural)]
pub enum BlockTexture {
    Stone,
    Dirt,
    Moss,
}

/// Index of a texture in the texture array: stone 0, dirt 1, moss 2.
pub open spec fn texture_code(texture: BlockTexture) -> int {
    match texture {
        BlockTexture::Stone => 0,
        BlockTexture::Dirt => 1,
        BlockTexture::Moss => 2,
    }
}

/// A block of a chunk: its position inside the chunk, its texture, and a
/// bit mask of its visible faces (bit `i` for the face with code `i`).
///
/// Blocks are told apart by all three fields, the face mask included, so a
/// lookup of a block made by `Block::new` (whose mask is 0) finds only a
/// stored block at that position whose mask is 0 too; the ground and
/// collision checks look blocks up that way.
#[derive(Debug, Clone, Copy, PartialEq, Eq)]
pub struct Block {
    pub position: (u8, u8, u8),
    pub texture: BlockTexture,
    pub visible_faces: u8,
}

/// Whether bit `code` of a face mask is set.
pub open spec fn face_visible(mask: u8, code: u8) -> bool {
    (mask >> code) & 1 == 1
}

/// The instance of one face of a block, if that face is visible.
pub open spec fn face_instance(block: Block, face: Face, code: u8) -> Seq<Instance> {
    if face_visible(block.visible_faces, code) {
        seq![
            Instance {
                position: Position { x: block.position.0, y: block.position.1, z: block.position.2 },
                face,
            },
        ]
    } else {
        seq![]
    }
}

/// The instances of a block: one per visible face, in face-code order.
pub open spec fn block_instances(block: Block) -> Seq<Instance> {
    face_instance(block, Face::Left, 0) + face_instance(block, Face::Right, 1) + face_instance(
        block,
        Face::Top,
        2,
    ) + face_instance(block, Face::Bottom, 3) + face_instance(block, Face::Front, 4)
        + face_instance(block, Face::Back, 5)
}

/// The instances of a sequence of blocks, block after block.
pub open spec fn instances_of_blocks(blocks: Seq<Block>) -> Seq<Instance>
    decreases blocks.len(),
{
    if blocks.len() == 0 {
        seq![]
    } else {
        instances_of_blocks(blocks.drop_last()) + block_instances(blocks.last())
    }
}

/// `order` lists the blocks of `set`, each once.
pub open spec fn enumerates(order: Seq<Block>, set: Set<Block>) -> bool {
    order.no_duplicates() && order.to_set() == set
}

/// The block that `Block::new` makes: stone, at the given position, with no
/// visible face.
pub open spec fn new_block(x: u8, y: u8, z: u8) -> Block {
    Block { position: (x, y, z), texture: BlockTexture::Stone, visible_faces: 0 }
}

proof fn lemma_concat_contains(a: Seq<Instance>, b: Seq<Instance>, x: Instance)
    ensures
        (a + b).contains(x) <==> a.contains(x) || b.contains(x),
{
    if (a + b).contains(x) {
        let k = choose|k: int| 0 <= k < (a + b).len() && (a + b)[k] == x;
        if k < a.len() {
            assert(a[k] == x);
        } else {
            assert(b[k - a.len()] == x);
        }
    }
    if a.contains(x) {
        let k = choose|k: int| 0 <= k < a.len() && a[k] == x;
        assert((a + b)[k] == x);
    }
    if b.contains(x) {
        let k = choose|k: int| 0 <= k < b.len() && b[k] == x;
        assert((a + b)[k + a.len()] == x);
    }
}

proof fn lemma_face_instance_contains(block: Block, face: Face, code: u8, x: Instance)
    ensures
        face_instance(block, face, code).contains(x) <==> (x.face == face && x.position == (Position {
            x: block.position.0,
            y: block.position.1,
            z: block.position.2,
        }) && (block.visible_faces >> code) & 1 == 1),
        face_instance(block, face, code).len() == ((block.visible_faces >> code) & 1) as int,
{
    let mask = block.visible_faces;
    assert((mask >> code) & 1 == 1 || (mask >> code) & 1 == 0) by (bit_vector);
    let pos = Position { x: block.position.0, y: block.position.1, z: block.position.2 };
    let s = face_instance(block, face, code);
    if (block.visible_faces >> code) & 1 == 1 {
        assert(s[0] == Instance { position: pos, face });
        if s.contains(x) {
            let k = choose|k: int| 0 <= k < s.len() && s[k] == x;
            assert(k == 0);
        }
        if x.face == face && x.position == pos {
            assert(x == Instance { position: pos, face });
            assert(s[0] == x);
        }
    } else {
        assert(s.len() == 0);
    }
}

/// The instances of a block are its visible faces: an instance at the
/// block's position with face `f` is among them exactly when bit
/// `face_code(f)` of the mask is set, every instance sits at the block's
/// position, and there are as many as the mask has bits set among its low
/// six.
pub proof fn lemma_block_instances_are_visible_faces(block: Block)
    ensures
        forall|f: Face|
            #[trigger] block_instances(block).contains(
                Instance {
                    position: Position { x: block.position.0, y: block.position.1, z: block.position.2 },
                    face: f,
                },
            ) <==> (block.visible_faces >> (face_code(f) as u8)) & 1 == 1,
        forall|k: int|
            0 <= k < block_instances(block).len() ==> #[trigger] block_instances(block)[k].position
                == (Position { x: block.position.0, y: block.position.1, z: block.position.2 }),
        block_instances(block).len() == ((block.visible_faces >> 0u8) & 1) + ((block.visible_faces
            >> 1u8) & 1) + ((block.visible_faces >> 2u8) & 1) + ((block.visible_faces >> 3u8) & 1)
            + ((block.visible_faces >> 4u8) & 1) + ((block.visible_faces >> 5u8) & 1),
{
    let pos = Position { x: block.position.0, y: block.position.1, z: block.position.2 };
    let p0 = face_instance(block, Face::Left, 0);
    let p1 = face_instance(block, Face::Right, 1);
    let p2 = face_instance(block, Face::Top, 2);
    let p3 = face_instance(block, Face::Bottom, 3);
    let p4 = face_instance(block, Face::Front, 4);
    let p5 = face_instance(block, Face::Back, 5);
    assert forall|x: Instance| #[trigger] block_instances(block).contains(x) <==> (x.position == pos
        && (block.visible_faces >> (face_code(x.face) as u8)) & 1 == 1) by {
        lemma_face_instance_contains(block, Face::Left, 0, x);
        lemma_face_instance_contains(block, Face::Right, 1, x);
        lemma_face_instance_contains(block, Face::Top, 2, x);
        lemma_face_instance_contains(block, Face::Bottom, 3, x);
        lemma_face_instance_contains(block, Face::Front, 4, x);
        lemma_face_instance_contains(block, Face::Back, 5, x);
        lemma_concat_contains(p0, p1, x);
        lemma_concat_contains(p0 + p1, p2, x);
        lemma_concat_contains(p0 + p1 + p2, p3, x);
        lemma_concat_contains(p0 + p1 + p2 + p3, p4, x);
        lemma_concat_contains(p0 + p1 + p2 + p3 + p4, p5, x);
    }
    assert forall|f: Face|
        #[trigger] block_instances(block).contains(Instance { position: pos, face: f }) <==> (
        block.visible_faces >> (face_code(f) as u8)) & 1 == 1 by {
        assert(block_instances(block).contains(Instance { position: pos, face: f }) <==> (
        block.visible_faces >> (face_code(Instance { position: pos, face: f }.face) as u8)) & 1 == 1);
    }
    assert forall|k: int| 0 <= k < block_instances(block).len() implies #[trigger] block_instances(
        block,
    )[k].position == pos by {
        let x = block_instances(block)[k];
        assert(block_instances(block).contains(x));
    }
    lemma_face_instance_contains(block, Face::Left, 0, p0[0]);
    lemma_face_instance_contains(block, Face::Right, 1, p0[0]);
    lemma_face_instance_contains(block, Face::Top, 2, p0[0]);
    lemma_face_instance_contains(block, Face::Bottom, 3, p0[0]);
    lemma_face_instance_contains(block, Face::Front, 4, p0[0]);
    lemma_face_instance_contains(block, Face::Back, 5, p0[0]);
}

/// `Block::new` makes a stone block at the given position that shows no
/// face.
pub proof fn lemma_new_block_is_bare_stone(x: u8, y: u8, z: u8)
    ensures
        new_block(x, y, z).position == (x, y, z),
        new_block(x, y, z).texture == BlockTexture::Stone,
        new_block(x, y, z).visible_faces == 0,
{
}

impl Block {
    /// A stone block at the given position with no visible face.
    pub fn new(x: u8, y: u8, z: u8) -> (block: Block)
        ensures
            block == new_block(x, y, z),
    {
        Block { position: (x, y, z), texture: BlockTexture::Stone, visible_faces: 0 }
    }

    /// The instances to draw for this block: one per visible face, in the
    /// order left, right, top, bottom, front, back.
    pub fn as_instances(&self) -> (instances: Vec<Instance>)
        ensures
            instances@ == block_instances(*self),
    {
        let position = Position { x: self.position.0, y: self.position.1, z: self.position.2 };
        let mask = self.visible_faces;
        let mut instances: Vec<Instance> = Vec::new();
        if (mask >> 0u8) & 1 == 1 {
            instances.push(Instance { position, face: Face::Left });
        }
        if (mask >> 1u8) & 1 == 1 {
            instances.push(Instance { position, face: Face::Right });
        }
        if (mask >> 2u8) & 1 == 1 {
            instances.push(Instance { position, face: Face::Top });
        }
        if (mask >> 3u8) & 1 == 1 {
            instances.push(Instance { position, face: Face::Bottom });
        }
        if (mask >> 4u8) & 1 == 1 {
            instances.push(Instance { position, face: Face::Front });
        }
        if (mask >> 5u8) & 1 == 1 {
            instances.push(Instance { position, face: Face::Back });
        }
        instances
    }
}

/// The key of a block in a [`BlockSet`]: x in bits 0 to 7, y in bits 8 to
/// 15, z in bits 16 to 23, the texture index in bits 24 and 25 and the face
/// mask in bits 32 to 39.
spec fn block_key(block: Block) -> u64 {
    key_of(
        block.position.0 as u64,
        block.position.1 as u64,
        block.position.2 as u64,
        texture_code(block.texture) as u64,
        block.visible_faces as u64,
    )
}

/// The packed key of block fields.
spec fn key_of(x: u64, y: u64, z: u64, t: u64, f: u64) -> u64 {
    x | (y << 8u64) | (z << 16u64) | (t << 24u64) | (f << 32u64)
}

/// The texture with index `code`; moss for every index from 2 up.
spec fn texture_of_code(code: u64) -> BlockTexture {
    if code == 0 {
        BlockTexture::Stone
    } else if code == 1 {
        BlockTexture::Dirt
    } else {
        BlockTexture::Moss
    }
}

/// The block that a key stands for.
spec fn key_block(k: u64) -> Block {
    Block {
        position: ((k & 0xff) as u8, ((k >> 8u64) & 0xff) as u8, ((k >> 16u64) & 0xff) as u8),
        texture: texture_of_code((k >> 24u64) & 3),
        visible_faces: ((k >> 32u64) & 0xff) as u8,
    }
}

/// Keys that some block has.
spec fn valid_key(k: u64) -> bool {
    &&& k >> 40u64 == 0
    &&& (k >> 26u64) & 63 == 0
    &&& (k >> 24u64) & 3 != 3
}

proof fn lemma_key_fields(x: u64, y: u64, z: u64, t: u64, f: u64)
    by (bit_vector)
    requires
        x < 256,
        y < 256,
        z < 256,
        t < 3,
        f < 256,
    ensures
        ({
            let k = x | (y << 8u64) | (z << 16u64) | (t << 24u64) | (f << 32u64);
            &&& k & 0xff == x
            &&& (k >> 8u64) & 0xff == y
            &&& (k >> 16u64) & 0xff == z
            &&& (k >> 24u64) & 3 == t
            &&& (k >> 32u64) & 0xff == f
            &&& k >> 40u64 == 0
            &&& (k >> 26u64) & 63 == 0
            &&& (k >> 24u64) & 3 != 3
        }),
{
}

proof fn lemma_key_rebuilt(k: u64)
    by (bit_vector)
    requires
        k >> 40u64 == 0,
        (k >> 26u64) & 63 == 0,
    ensures
        k & 0xff < 256,
        (k >> 8u64) & 0xff < 256,
        (k >> 16u64) & 0xff < 256,
        (k >> 24u64) & 3 < 4,
        (k >> 32u64) & 0xff < 256,
        k == (k & 0xff) | (((k >> 8u64) & 0xff) << 8u64) | (((k >> 16u64) & 0xff) << 16u64) | (((
        k >> 24u64) & 3) << 24u64) | (((k >> 32u64) & 0xff) << 32u64),
{
}

/// Keys and blocks correspond one to one.
proof fn lemma_block_key_roundtrip(block: Block)
    ensures
        key_block(block_key(block)) == block,
        valid_key(block_key(block)),
{
    lemma_key_fields(
        block.position.0 as u64,
        block.position.1 as u64,
        block.position.2 as u64,
        texture_code(block.texture) as u64,
        block.visible_faces as u64,
    );
}

/// Every valid key is the key of the block it stands for.
proof fn lemma_key_block_roundtrip(k: u64)
    requires
        valid_key(k),
    ensures
        block_key(key_block(k)) == k,
{
    lemma_key_rebuilt(k);
    let b = key_block(k);
    assert(texture_code(b.texture) as u64 == (k >> 24u64) & 3);
    assert(b.position.0 as u64 == k & 0xff);
}

/// A set of blocks, each told apart by all of its fields.
pub struct BlockSet {
    keys: HashSet<u64>,
}

impl BlockSet {
    #[verifier::type_invariant]
    spec fn keys_valid(self) -> bool {
        forall|k: u64| #[trigger] self.keys@.contains(k) ==> valid_key(k)
    }

    /// The blocks of the set.
    pub closed spec fn view(&self) -> Set<Block> {
        Set::new(|b: Block| self.keys@.contains(block_key(b)))
    }

    /// An empty set.
    pub fn new() -> (set: BlockSet)
        ensures
            set@ == Set::<Block>::empty(),
    {
        let set = BlockSet { keys: HashSet::new() };
        assert(set@ =~= Set::<Block>::empty());
        set
    }

    /// Adds a block; returns whether it was not in the set before.
    pub fn insert(&mut self, block: Block) -> (added: bool)
        ensures
            final(self)@ == old(self)@.insert(block),
            added == !old(self)@.contains(block),
    {
        proof {
            use_type_invariant(&*self);
            lemma_block_key_roundtrip(block);
        }
        let k = Self::key(&block);
        let mut keys: HashSet<u64> = HashSet::new();
        std::mem::swap(&mut keys, &mut self.keys);
        let added = keys.insert(k);
        self.keys = keys;
        proof {
            assert forall|b: Block| #[trigger] self@.contains(b) == old(self)@.insert(block).contains(b) by {
                lemma_block_key_roundtrip(b);
                if block_key(b) == block_key(block) {
                    assert(b == key_block(block_key(b)));
                }
            }
            assert(self@ =~= old(self)@.insert(block));
        }
        added
    }

    /// Whether the block is in the set.
    pub fn contains(&self, block: &Block) -> (found: bool)
        ensures
            found == self@.contains(*block),
    {
        let k = Self::key(block);
        self.keys.contains(&k)
    }

    /// The blocks of the set, each once, in the order the set hands them out.
    pub fn to_vec(&self) -> (blocks: Vec<Block>)
        ensures
            enumerates(blocks@, self@),
    {
        proof {
            use_type_invariant(self);
        }
        let mut blocks: Vec<Block> = Vec::new();
        for k in it: self.keys.iter()
            invariant
                it.seq() == vstd::std_specs::hash::spec_hash_keys_iter(&self.keys).remaining(),
                blocks@.len() == it.index(),
                forall|i: int|
                    0 <= i < it.index() ==> blocks@[i] == key_block(*#[trigger] it.seq()[i]),
        {
            blocks.push(key_block_exec(*k));
        }
        proof {
            let ks = vstd::std_specs::hash::spec_hash_keys_iter(&self.keys).remaining().unref();
            assert(ks.to_set() == self.keys@);
            assert(ks.no_duplicates());
            assert(blocks@.len() == ks.len());
            assert forall|i: int| 0 <= i < ks.len() implies #[trigger] blocks@[i] == key_block(ks[i])
                && valid_key(ks[i]) && block_key(blocks@[i]) == ks[i] by {
                assert(ks.to_set().contains(ks[i]));
                lemma_key_block_roundtrip(ks[i]);
            }
            assert forall|i: int, j: int|
                0 <= i < blocks@.len() && 0 <= j < blocks@.len() && i != j implies blocks@[i]
                != blocks@[j] by {
                assert(block_key(blocks@[i]) == ks[i]);
                assert(block_key(blocks@[j]) == ks[j]);
            }
            assert forall|b: Block| #[trigger] blocks@.to_set().contains(b) == self@.contains(b) by {
                if blocks@.to_set().contains(b) {
                    let i = choose|i: int| 0 <= i < blocks@.len() && blocks@[i] == b;
                    assert(ks.to_set().contains(ks[i]));
                }
                if self@.contains(b) {
                    assert(ks.to_set().contains(block_key(b)));
                    let i = choose|i: int| 0 <= i < ks.len() && ks[i] == block_key(b);
                    lemma_block_key_roundtrip(b);
                    assert(blocks@[i] == b);
                    assert(blocks@.contains(b));
                }
            }
            assert(blocks@.to_set() =~= self@);
        }
        blocks
    }

    fn key(block: &Block) -> (k: u64)
        ensures
            k == block_key(*block),
    {
        let t: u64 = match block.texture {
            BlockTexture::Stone => 0,
            BlockTexture::Dirt => 1,
            BlockTexture::Moss => 2,
        };
        (block.position.0 as u64) | ((block.position.1 as u64) << 8u64) | ((block.position.2 as u64)
            << 16u64) | (t << 24u64) | ((block.visible_faces as u64) << 32u64)
    }
}

fn key_block_exec(k: u64) -> (b: Block)
    ensures
        b == key_block(k),
{
    let t = (k >> 24u64) & 3;
    let texture = if t == 0 {
        BlockTexture::Stone
    } else if t == 1 {
        BlockTexture::Dirt
    } else {
        BlockTexture::Moss
    };
    Block {
        position: ((k & 0xff) as u8, ((k >> 8u64) & 0xff) as u8, ((k >> 16u64) & 0xff) as u8),
        texture,
        visible_faces: ((k >> 32u64) & 0xff) as u8,
    }
}

} // verus!
