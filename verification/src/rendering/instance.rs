//! Face instances and their packed form for the vertex shader.
//!
//! Layout of a packed instance, from the high bits down:
//! `fffxxxxxxyyyyyyzzzzzz` (face, then x, y and z inside the chunk).
use vstd::prelude::*;

verus! {

/// One of the six faces of a block.
#[derive(Debug, Clone, Copy, PartialEq, Eq, Structural)]
pub enum Face {
    Left,
    Right,
    Top,
    Bottom,
    Front,
    Back,
}

/// The three-bit code of a face in the packed layout.
pub open spec fn face_code(face: Face) -> u32 {
    match face {
        Face::Left => 0,
        Face::Right => 1,
        Face::Top => 2,
        Face::Bottom => 3,
        Face::Front => 4,
        Face::Back => 5,
    }
}

impl Face {
    /// The three-bit code of this face: left 0, right 1, top 2, bottom 3,
    /// front 4, back 5.
    pub fn code(&self) -> (c: u32)
        ensures
            c == face_code(*self),
    {
        match self {
            Face::Left => 0,
            Face::Right => 1,
            Face::Top => 2,
            Face::Bottom => 3,
            Face::Front => 4,
            Face::Back => 5,
        }
    }
}

/// A position inside a chunk, one byte per axis.
#[derive(Debug, Clone, Copy, PartialEq, Eq, Structural)]
pub struct Position {
    pub x: u8,
    pub y: u8,
    pub z: u8,
}

/// One visible face of one block.
#[derive(Debug, Clone, Copy, PartialEq, Eq, Structural)]
pub struct Instance {
    pub position: Position,
    pub face: Face,
}

/// An instance packed into one 32-bit word for the vertex shader.
#[derive(Debug, Clone, Copy, PartialEq, Eq, Structural)]
pub struct InstanceRaw(pub u32);

/// The packed word of an instance: x shifted by 12, y by 6, z unshifted and
/// the face code shifted by 18, added together.
pub open spec fn raw_value(instance: Instance) -> int {
    instance.position.x * 4096 + instance.position.y * 64 + instance.position.z
        + face_code(instance.face) * 262144
}

/// All three coordinates fit in the six bits the layout gives them.
pub open spec fn fits_layout(position: Position) -> bool {
    position.x < 64 && position.y < 64 && position.z < 64
}

impl Instance {
    /// Packs the instance into its shader word.
    pub fn as_raw(&self) -> (raw: InstanceRaw)
        ensures
            raw.0 == raw_value(*self),
    {
        let x = self.position.x as u32;
        let y = self.position.y as u32;
        let z = self.position.z as u32;
        let f = self.face.code();
        assert((x << 12u32) == x * 4096 && (y << 6u32) == y * 64 && (f << 18u32) == f * 262144)
            by (bit_vector)
            requires
                x < 256,
                y < 256,
                f < 8,
        ;
        let raw_description: u32 = (x << 12u32) + (y << 6u32) + z + (f << 18u32);
        InstanceRaw(raw_description)
    }
}

proof fn lemma_fields_of_packed(x: u32, y: u32, z: u32, f: u32)
    by (bit_vector)
    requires
        x < 64,
        y < 64,
        z < 64,
        f < 8,
    ensures
        ({
            let r = (x * 4096 + y * 64 + z + f * 262144) as u32;
            &&& r >> 18u32 == f
            &&& (r >> 12u32) & 63 == x
            &&& (r >> 6u32) & 63 == y
            &&& r & 63 == z
        }),
{
}

/// Each field of an instance whose coordinates fit the layout can be read
/// back from the packed word: the face from bits 18 and up, x from bits
/// 12 to 17, y from bits 6 to 11 and z from bits 0 to 5.
pub proof fn lemma_packed_fields(instance: Instance)
    requires
        fits_layout(instance.position),
    ensures
        0 <= raw_value(instance) <= u32::MAX,
        (raw_value(instance) as u32) >> 18u32 == face_code(instance.face),
        ((raw_value(instance) as u32) >> 12u32) & 63 == instance.position.x,
        ((raw_value(instance) as u32) >> 6u32) & 63 == instance.position.y,
        (raw_value(instance) as u32) & 63 == instance.position.z,
{
    lemma_fields_of_packed(
        instance.position.x as u32,
        instance.position.y as u32,
        instance.position.z as u32,
        face_code(instance.face),
    );
}

/// Two instances whose coordinates fit the layout pack to the same word
/// only when they are the same instance.
pub proof fn lemma_packing_injective(a: Instance, b: Instance)
    requires
        fits_layout(a.position),
        fits_layout(b.position),
    ensures
        raw_value(a) == raw_value(b) <==> a == b,
{
    lemma_packed_fields(a);
    lemma_packed_fields(b);
    if raw_value(a) == raw_value(b) {
        assert(face_code(a.face) == face_code(b.face));
        assert(a.face == b.face);
    }
}

/// The face codes of the packed layout: 000 left, 001 right, 010 top,
/// 011 bottom, 100 front, 101 back; different faces get different codes.
pub proof fn lemma_face_codes_follow_layout()
    ensures
        face_code(Face::Left) == 0b000,
        face_code(Face::Right) == 0b001,
        face_code(Face::Top) == 0b010,
        face_code(Face::Bottom) == 0b011,
        face_code(Face::Front) == 0b100,
        face_code(Face::Back) == 0b101,
        forall|a: Face, b: Face| face_code(a) == face_code(b) ==> a == b,
{
}

} // verus!
