//! Turning the blocks of a chunk into face instances.
use vstd::prelude::*;
use crate::rendering::block::{Block, BlockSet, block_instances, enumerates, instances_of_blocks};
use crate::rendering::instance::{Instance, Position, face_code};
use crate::rendering::block::lemma_block_instances_are_visible_faces;

verus! {

/// The instances of a sequence of blocks, block after block.
pub fn instances_of(blocks: &Vec<Block>) -> (instances: Vec<Instance>)
    ensures
        instances@ == instances_of_blocks(blocks@),
{
    let mut instances: Vec<Instance> = Vec::new();
    for i in 0..blocks.len()
        invariant
            instances@ == instances_of_blocks(blocks@.take(i as int)),
    {
        let block_faces = blocks[i].as_instances();
        let mut j: usize = 0;
        let ghost before = instances@;
        while j < block_faces.len()
            invariant
                j <= block_faces.len(),
                block_faces@ == block_instances(blocks@[i as int]),
                instances@ == before + block_faces@.take(j as int),
            decreases block_faces.len() - j,
        {
            instances.push(block_faces[j]);
            j = j + 1;
            assert(block_faces@.take(j as int) == block_faces@.take(j - 1).push(block_faces@[j - 1]));
        }
        assert(blocks@.take(i + 1).drop_last() == blocks@.take(i as int));
        assert(block_faces@.take(j as int) == block_faces@);
    }
    assert(blocks@.take(blocks.len() as int) == blocks@);
    instances
}

/// The face instances of every block of the set: each block's visible faces,
/// block after block, in the order the set hands its blocks out. The edge
/// blocks are left as they are.
pub fn blocks_to_instances(blocks: &BlockSet, edge_blocks: &mut BlockSet) -> (instances: Vec<
    Instance,
>)
    ensures
        exists|order: Seq<Block>|
            enumerates(order, blocks@) && instances@ == instances_of_blocks(order),
        forall|x: Instance|
            #[trigger] instances@.contains(x) <==> exists|b: Block| blocks@.contains(b) && shows(b, x),
        final(edge_blocks)@ == old(edge_blocks)@,
{
    let order = blocks.to_vec();
    let instances = instances_of(&order);
    assert forall|x: Instance|
        #[trigger] instances@.contains(x) <==> exists|b: Block| blocks@.contains(b) && shows(b, x) by {
        lemma_instances_are_visible_faces(order@, blocks@, x);
    }
    instances
}

/// The instances of two sequences laid end to end are those of the first
/// followed by those of the second.
pub proof fn lemma_instances_of_concat(a: Seq<Block>, b: Seq<Block>)
    ensures
        instances_of_blocks(a + b) == instances_of_blocks(a) + instances_of_blocks(b),
    decreases b.len(),
{
    if b.len() == 0 {
        assert(a + b =~= a);
        assert(instances_of_blocks(a) + instances_of_blocks(b) =~= instances_of_blocks(a));
    } else {
        assert((a + b).drop_last() =~= a + b.drop_last());
        assert((a + b).last() == b.last());
        lemma_instances_of_concat(a, b.drop_last());
        assert(instances_of_blocks(a + b) =~= instances_of_blocks(a) + instances_of_blocks(b));
    }
}

/// Whatever order a set hands its blocks out in, the instances made from
/// them are the same, as a multiset.
pub proof fn lemma_instances_independent_of_order(o1: Seq<Block>, o2: Seq<Block>, set: Set<Block>)
    requires
        enumerates(o1, set),
        enumerates(o2, set),
    ensures
        instances_of_blocks(o1).to_multiset() == instances_of_blocks(o2).to_multiset(),
    decreases o1.len(),
{
    broadcast use vstd::seq_lib::group_to_multiset_ensures;
    if o1.len() == 0 {
        assert(set =~= Set::<Block>::empty()) by {
            assert forall|b: Block| !set.contains(b) by {
                if set.contains(b) {
                    assert(o1.to_set().contains(b));
                }
            }
        }
        if o2.len() > 0 {
            assert(o2.to_set().contains(o2[0]));
        }
        assert(o2 =~= Seq::<Block>::empty());
    } else {
        let b = o1.last();
        let r1 = o1.drop_last();
        assert(o1.to_set().contains(b)) by {
            assert(o1[o1.len() - 1] == b);
        }
        assert(o2.to_set().contains(b));
        let j = choose|j: int| 0 <= j < o2.len() && o2[j] == b;
        let front = o2.subrange(0, j);
        let back = o2.subrange(j + 1, o2.len() as int);
        let r2 = front + back;
        let rest = set.remove(b);
        assert(r1.no_duplicates()) by {
            assert forall|x: int, y: int| 0 <= x < r1.len() && 0 <= y < r1.len() && x != y implies r1[x]
                != r1[y] by {
                assert(r1[x] == o1[x] && r1[y] == o1[y]);
            }
        }
        assert(r1.to_set() =~= rest) by {
            assert forall|x: Block| #[trigger] r1.to_set().contains(x) <==> rest.contains(x) by {
                if r1.to_set().contains(x) {
                    let k = choose|k: int| 0 <= k < r1.len() && r1[k] == x;
                    assert(o1[k] == x);
                    assert(o1.to_set().contains(x));
                    assert(x != b);
                }
                if rest.contains(x) {
                    assert(o1.to_set().contains(x));
                    let k = choose|k: int| 0 <= k < o1.len() && o1[k] == x;
                    assert(k != o1.len() - 1);
                    assert(r1[k] == x);
                }
            }
        }
        assert(r2.no_duplicates()) by {
            assert forall|x: int, y: int| 0 <= x < r2.len() && 0 <= y < r2.len() && x != y implies r2[x]
                != r2[y] by {
                let ox = if x < j { x } else { x + 1 };
                let oy = if y < j { y } else { y + 1 };
                assert(r2[x] == o2[ox]);
                assert(r2[y] == o2[oy]);
            }
        }
        assert(r2.to_set() =~= rest) by {
            assert forall|x: Block| #[trigger] r2.to_set().contains(x) <==> rest.contains(x) by {
                if r2.to_set().contains(x) {
                    let k = choose|k: int| 0 <= k < r2.len() && r2[k] == x;
                    let ok = if k < j { k } else { k + 1 };
                    assert(o2[ok] == x);
                    assert(o2.to_set().contains(x));
                    assert(ok != j);
                    assert(x != b);
                }
                if rest.contains(x) {
                    assert(o2.to_set().contains(x));
                    let k = choose|k: int| 0 <= k < o2.len() && o2[k] == x;
                    assert(k != j);
                    let rk = if k < j { k } else { k - 1 };
                    assert(r2[rk] == x);
                }
            }
        }
        lemma_instances_independent_of_order(r1, r2, rest);
        assert(o2 =~= front + seq![b] + back);
        lemma_instances_of_concat(front + seq![b], back);
        lemma_instances_of_concat(front, seq![b]);
        lemma_instances_of_concat(front, back);
        assert(seq![b].drop_last() =~= Seq::<Block>::empty());
        assert(seq![b].last() == b);
        assert(instances_of_blocks(Seq::<Block>::empty()) =~= Seq::<Instance>::empty());
        assert(instances_of_blocks(seq![b]) =~= block_instances(b));
        vstd::seq_lib::lemma_multiset_commutative(instances_of_blocks(front), block_instances(b));
        vstd::seq_lib::lemma_multiset_commutative(
            instances_of_blocks(front) + block_instances(b),
            instances_of_blocks(back),
        );
        vstd::seq_lib::lemma_multiset_commutative(instances_of_blocks(front), instances_of_blocks(back));
        vstd::seq_lib::lemma_multiset_commutative(instances_of_blocks(r1), block_instances(b));
        assert(instances_of_blocks(o1).to_multiset() =~= instances_of_blocks(o2).to_multiset());
    }
}

/// Block `b` shows face instance `x`: `x` sits at `b`'s position and the
/// bit of `x`'s face is set in `b`'s mask.
pub open spec fn shows(b: Block, x: Instance) -> bool {
    &&& x.position == (Position { x: b.position.0, y: b.position.1, z: b.position.2 })
    &&& (b.visible_faces >> (face_code(x.face) as u8)) & 1 == 1
}

proof fn lemma_block_shows(b: Block, x: Instance)
    ensures
        block_instances(b).contains(x) <==> shows(b, x),
{
    lemma_block_instances_are_visible_faces(b);
    if block_instances(b).contains(x) {
        let k = choose|k: int| 0 <= k < block_instances(b).len() && block_instances(b)[k] == x;
        assert(block_instances(b)[k].position == x.position);
        assert(x == Instance { position: x.position, face: x.face });
    }
    if shows(b, x) {
        assert(x == Instance {
            position: Position { x: b.position.0, y: b.position.1, z: b.position.2 },
            face: x.face,
        });
    }
}

proof fn lemma_instances_of_sequence(blocks: Seq<Block>, x: Instance)
    ensures
        instances_of_blocks(blocks).contains(x) <==> exists|i: int|
            0 <= i < blocks.len() && shows(blocks[i], x),
    decreases blocks.len(),
{
    if blocks.len() > 0 {
        let front = blocks.drop_last();
        let b = blocks.last();
        lemma_instances_of_sequence(front, x);
        lemma_block_shows(b, x);
        let a = instances_of_blocks(front);
        let c = block_instances(b);
        assert(instances_of_blocks(blocks) == a + c);
        if (a + c).contains(x) {
            let k = choose|k: int| 0 <= k < (a + c).len() && (a + c)[k] == x;
            if k < a.len() {
                assert(a[k] == x);
                let i = choose|i: int| 0 <= i < front.len() && shows(front[i], x);
                assert(blocks[i] == front[i]);
            } else {
                assert(c[k - a.len()] == x);
                assert(blocks[blocks.len() - 1] == b);
            }
        }
        if exists|i: int| 0 <= i < blocks.len() && shows(blocks[i], x) {
            let i = choose|i: int| 0 <= i < blocks.len() && shows(blocks[i], x);
            if i < front.len() {
                assert(front[i] == blocks[i]);
                let k = choose|k: int| 0 <= k < a.len() && a[k] == x;
                assert((a + c)[k] == x);
            } else {
                assert(blocks[i] == b);
                let k = choose|k: int| 0 <= k < c.len() && c[k] == x;
                assert((a + c)[k + a.len()] == x);
            }
        }
    }
}

/// The instances made from a listing of a set are exactly the visible faces
/// of the set's blocks: an instance is among them when some block of the
/// set sits at its position with its face's bit set, and only then.
pub proof fn lemma_instances_are_visible_faces(order: Seq<Block>, set: Set<Block>, x: Instance)
    requires
        enumerates(order, set),
    ensures
        instances_of_blocks(order).contains(x) <==> exists|b: Block| set.contains(b) && shows(b, x),
{
    lemma_instances_of_sequence(order, x);
    if instances_of_blocks(order).contains(x) {
        let i = choose|i: int| 0 <= i < order.len() && shows(order[i], x);
        assert(order.to_set().contains(order[i]));
    }
    if exists|b: Block| set.contains(b) && shows(b, x) {
        let b = choose|b: Block| set.contains(b) && shows(b, x);
        assert(order.to_set().contains(b));
        let i = choose|i: int| 0 <= i < order.len() && order[i] == b;
        assert(shows(order[i], x));
    }
}

} // verus!
