use voxel_engine::movement::collision::{check_player_block, containts_any_block};
use voxel_engine::movement::{Acceleration, CameraController, Key, KeyboardInput, Vertical};
use voxel_engine::rendering::block::{Block, BlockSet, BlockTexture};
use voxel_engine::rendering::culling::blocks_to_instances;
use voxel_engine::rendering::instance::{Face, Instance, InstanceRaw, Position};
use voxel_engine::rendering::next_chunk;
use voxel_engine::terrain::chunk::{chunk_bounds, Chunk};
use voxel_engine::terrain::gradient_corners;

fn block(x: u8, y: u8, z: u8, texture: BlockTexture, visible_faces: u8) -> Block {
    Block { position: (x, y, z), texture, visible_faces }
}

#[test]
fn face_codes_follow_layout() {
    let faces = [Face::Left, Face::Right, Face::Top, Face::Bottom, Face::Front, Face::Back];
    for (i, f) in faces.iter().enumerate() {
        assert_eq!(f.code(), i as u32);
    }
}

#[test]
fn as_raw_packs_fields() {
    let inst = Instance { position: Position { x: 1, y: 2, z: 3 }, face: Face::Top };
    assert_eq!(inst.as_raw(), InstanceRaw((1 << 12) + (2 << 6) + 3 + (2 << 18)));
    assert_eq!(inst.as_raw().0, 528515);
}

#[test]
fn as_raw_fields_read_back() {
    let inst = Instance { position: Position { x: 63, y: 17, z: 42 }, face: Face::Back };
    let r = inst.as_raw().0;
    assert_eq!(r >> 18, 5);
    assert_eq!((r >> 12) & 63, 63);
    assert_eq!((r >> 6) & 63, 17);
    assert_eq!(r & 63, 42);
}

#[test]
fn as_raw_largest_value() {
    let inst = Instance { position: Position { x: 255, y: 255, z: 255 }, face: Face::Back };
    assert_eq!(inst.as_raw().0, 255 * 4096 + 255 * 64 + 255 + 5 * 262144);
}

#[test]
fn next_chunk_stays_inside() {
    assert_eq!(next_chunk((0, 0), (0, 0)), None);
    assert_eq!(next_chunk((0, 0), (31, 31)), None);
    assert_eq!(next_chunk((-1, 2), (-32, 64)), None);
    assert_eq!(next_chunk((-1, 2), (-1, 95)), None);
}

#[test]
fn next_chunk_steps_each_direction() {
    assert_eq!(next_chunk((0, 0), (32, 0)), Some((1, 0)));
    assert_eq!(next_chunk((0, 0), (-1, 0)), Some((-1, 0)));
    assert_eq!(next_chunk((0, 0), (0, 32)), Some((0, 1)));
    assert_eq!(next_chunk((0, 0), (0, -1)), Some((0, -1)));
}

#[test]
fn next_chunk_moves_along_x_first() {
    assert_eq!(next_chunk((0, 0), (100, 100)), Some((1, 0)));
    assert_eq!(next_chunk((0, 0), (-100, -100)), Some((-1, 0)));
}

#[test]
fn next_chunk_reaches_camera_chunk() {
    let camera = (100, -40);
    let mut current = (0, 0);
    let mut steps = 0;
    while let Some(n) = next_chunk(current, camera) {
        current = n;
        steps += 1;
        assert!(steps <= 10);
    }
    assert_eq!(current, (3, -2));
    assert_eq!(steps, 5);
}

#[test]
fn next_chunk_at_coordinate_limits() {
    assert_eq!(next_chunk((67108862, 0), (2147483600, 0)), None);
    assert_eq!(next_chunk((67108862, 0), (2147483647, 0)), Some((67108863, 0)));
    assert_eq!(next_chunk((-67108864, 0), (-2147483648, 0)), None);
    assert_eq!(next_chunk((-67108864, 0), (-2147483617, 0)), None);
}

#[test]
fn block_new_is_stone_without_faces() {
    let b = Block::new(1, 2, 3);
    assert_eq!(b, block(1, 2, 3, BlockTexture::Stone, 0));
}

#[test]
fn block_set_insert_and_contains() {
    let mut set = BlockSet::new();
    let a = block(1, 2, 3, BlockTexture::Dirt, 0b11);
    assert!(!set.contains(&a));
    assert!(set.insert(a));
    assert!(set.contains(&a));
    assert!(!set.insert(a));
    assert!(!set.contains(&block(1, 2, 3, BlockTexture::Dirt, 0b01)));
    assert!(!set.contains(&block(1, 2, 3, BlockTexture::Moss, 0b11)));
    assert!(!set.contains(&block(1, 2, 4, BlockTexture::Dirt, 0b11)));
    assert!(set.insert(block(255, 255, 255, BlockTexture::Moss, 255)));
    assert!(set.contains(&block(255, 255, 255, BlockTexture::Moss, 255)));
    assert_eq!(set.to_vec().len(), 2);
}

#[test]
fn block_set_to_vec_lists_each_block_once() {
    let mut set = BlockSet::new();
    let blocks = [
        block(0, 0, 0, BlockTexture::Stone, 0),
        block(0, 1, 0, BlockTexture::Dirt, 1),
        block(9, 8, 7, BlockTexture::Moss, 63),
    ];
    for b in blocks.iter() {
        set.insert(*b);
    }
    set.insert(blocks[1]);
    let v = set.to_vec();
    assert_eq!(v.len(), 3);
    for b in blocks.iter() {
        assert_eq!(v.iter().filter(|x| *x == b).count(), 1);
    }
}

#[test]
fn as_instances_one_per_visible_face() {
    let b = block(4, 5, 6, BlockTexture::Stone, 0b101101);
    let p = Position { x: 4, y: 5, z: 6 };
    let faces: Vec<Face> = b.as_instances().iter().map(|i| i.face).collect();
    assert_eq!(faces, vec![Face::Left, Face::Top, Face::Bottom, Face::Back]);
    assert!(b.as_instances().iter().all(|i| i.position == p));
    assert!(block(0, 0, 0, BlockTexture::Stone, 0).as_instances().is_empty());
    assert_eq!(block(0, 0, 0, BlockTexture::Stone, 0b11000000).as_instances().len(), 0);
    assert_eq!(block(0, 0, 0, BlockTexture::Stone, 0b111111).as_instances().len(), 6);
}

#[test]
fn blocks_to_instances_collects_all_faces() {
    let mut set = BlockSet::new();
    set.insert(block(1, 1, 1, BlockTexture::Dirt, 0b000011));
    set.insert(block(2, 2, 2, BlockTexture::Moss, 0b100000));
    set.insert(block(3, 3, 3, BlockTexture::Stone, 0));
    let mut edges = BlockSet::new();
    edges.insert(block(7, 7, 7, BlockTexture::Stone, 1));
    let instances = blocks_to_instances(&set, &mut edges);
    assert_eq!(instances.len(), 3);
    assert!(instances.contains(&Instance { position: Position { x: 1, y: 1, z: 1 }, face: Face::Left }));
    assert!(instances.contains(&Instance { position: Position { x: 1, y: 1, z: 1 }, face: Face::Right }));
    assert!(instances.contains(&Instance { position: Position { x: 2, y: 2, z: 2 }, face: Face::Back }));
    assert!(edges.contains(&block(7, 7, 7, BlockTexture::Stone, 1)));
    assert_eq!(edges.to_vec().len(), 1);
}

#[test]
fn chunk_bounds_of_positions() {
    assert_eq!(chunk_bounds((0, 0)), ((0, 0, 0), (32, 128, 32)));
    assert_eq!(chunk_bounds((-2, 3)), ((-64, 0, 96), (-32, 128, 128)));
}

#[test]
fn chunk_new_builds_mesh_data() {
    let mut set = BlockSet::new();
    set.insert(block(1, 2, 3, BlockTexture::Dirt, 0b000101));
    set.insert(block(4, 5, 6, BlockTexture::Stone, 0));
    let chunk = Chunk::new((2, -1), set);
    assert_eq!(chunk.position, (2, -1));
    assert_eq!(chunk.num_instances, 2);
    assert_eq!(chunk.instance_data.len(), 2);
    let left = InstanceRaw((1 << 12) + (2 << 6) + 3);
    let top = InstanceRaw((1 << 12) + (2 << 6) + 3 + (2 << 18));
    assert!(chunk.instance_data.contains(&left));
    assert!(chunk.instance_data.contains(&top));
    assert_eq!(chunk.block_data, vec![[1, 2, 3, 0]]);
    assert!(chunk.blocks.contains(&block(4, 5, 6, BlockTexture::Stone, 0)));
}

#[test]
fn gradient_corners_in_bit_order() {
    let c = gradient_corners((1, -1));
    let got: Vec<(i32, i32, i32)> = c.iter().map(|p| (p.x, p.y, p.z)).collect();
    assert_eq!(
        got,
        vec![
            (32, 0, -32),
            (64, 0, -32),
            (32, 128, -32),
            (64, 128, -32),
            (32, 0, 0),
            (64, 0, 0),
            (32, 128, 0),
            (64, 128, 0),
        ]
    );
}

#[test]
fn containts_any_block_tries_three_textures() {
    let mut set = BlockSet::new();
    set.insert(block(5, 6, 7, BlockTexture::Moss, 0));
    set.insert(block(1, 1, 1, BlockTexture::Stone, 0b1));
    assert!(containts_any_block(Position { x: 5, y: 6, z: 7 }, &set));
    assert!(!containts_any_block(Position { x: 5, y: 6, z: 8 }, &set));
    assert!(!containts_any_block(Position { x: 1, y: 1, z: 1 }, &set));
}

#[test]
fn check_player_block_wraps_x_and_z() {
    let mut set = BlockSet::new();
    set.insert(block(1, 5, 0, BlockTexture::Dirt, 0));
    assert_eq!(check_player_block((33, 5, 64), (true, false, true), &set), (true, false, true));
    assert_eq!(check_player_block((1, 5, 0), (false, true, false), &set), (false, true, false));
    assert_eq!(check_player_block((1, 6, 0), (true, true, true), &set), (false, false, false));
}

#[test]
fn process_keyboard_sets_axes() {
    let mut c = CameraController::new(0);
    assert!(c.process_keyboard(Key::KeyW, true));
    assert_eq!(c.input.z, 1);
    assert!(c.process_keyboard(Key::ArrowDown, true));
    assert_eq!(c.input.z, -1);
    assert!(c.process_keyboard(Key::ArrowDown, false));
    assert_eq!(c.input.z, 0);
    assert!(c.process_keyboard(Key::KeyA, true));
    assert_eq!(c.input.x, -1);
    assert!(c.process_keyboard(Key::ArrowRight, true));
    assert_eq!(c.input.x, 1);
    assert!(c.process_keyboard(Key::Space, true));
    assert_eq!(c.input.y, 1);
    assert!(c.process_keyboard(Key::ShiftLeft, true));
    assert!(c.input.sneak);
    assert!(c.process_keyboard(Key::ControlLeft, true));
    assert!(c.input.sprint);
    assert!(c.process_keyboard(Key::ControlLeft, false));
    assert!(!c.input.sprint);
}

#[test]
fn process_keyboard_toggles_gravity_on_press() {
    let mut c = CameraController::new(0);
    assert!(!c.gravity_enabled);
    assert!(c.process_keyboard(Key::KeyG, true));
    assert!(c.gravity_enabled);
    assert!(c.process_keyboard(Key::KeyG, false));
    assert!(c.gravity_enabled);
    assert!(c.process_keyboard(Key::KeyG, true));
    assert!(!c.gravity_enabled);
}

#[test]
fn process_keyboard_ignores_other_keys() {
    let mut c = CameraController::new(0);
    let before = c;
    assert!(!c.process_keyboard(Key::Other, true));
    assert_eq!(c, before);
}

#[test]
fn tick_plan_without_gravity_stands_and_flies() {
    let mut c = CameraController::new(0);
    c.on_ground = false;
    let plan = c.tick_plan(0);
    assert!(c.on_ground);
    assert!(plan.grounded);
    assert!(!plan.jump);
    assert_eq!(plan.vertical, Vertical::Stand);
    assert_eq!(plan.acceleration, Acceleration::Walk);
    c.process_keyboard(Key::Space, true);
    let plan = c.tick_plan(1);
    assert_eq!(plan.vertical, Vertical::FlyUp);
    assert!(!plan.jump);
    let plan = c.tick_plan(500_000_000);
    assert!(plan.jump);
    assert_eq!(c.last_jump_ns, 500_000_000);
    assert_eq!(plan.vertical, Vertical::FlyUp);
    c.process_keyboard(Key::ShiftLeft, true);
    assert_eq!(c.tick_plan(0).vertical, Vertical::FlyDown);
    c.process_keyboard(Key::ControlLeft, true);
    assert_eq!(c.tick_plan(0).acceleration, Acceleration::FlySprint);
}

#[test]
fn tick_plan_with_gravity() {
    let mut c = CameraController {
        input: KeyboardInput { x: 1, y: 1, z: 0, sprint: true, sneak: false },
        on_ground: true,
        gravity_enabled: true,
        last_jump_ns: 1_000,
    };
    let plan = c.tick_plan(500_000_999);
    assert!(!plan.jump);
    assert_eq!(plan.vertical, Vertical::Stand);
    assert_eq!(plan.acceleration, Acceleration::Sprint);
    assert_eq!(c.last_jump_ns, 1_000);
    let plan = c.tick_plan(500_001_000);
    assert!(plan.jump);
    assert!(plan.sprint_jump);
    assert_eq!(plan.vertical, Vertical::Jump);
    assert_eq!(c.last_jump_ns, 500_001_000);
    c.on_ground = false;
    let plan = c.tick_plan(2_000_000_000);
    assert!(!plan.jump);
    assert!(!plan.grounded);
    assert_eq!(plan.vertical, Vertical::Fall);
    c.input.sprint = false;
    c.input.sneak = true;
    assert_eq!(c.tick_plan(0).acceleration, Acceleration::Sneak);
}

#[test]
fn jumps_are_spaced_by_cooldown() {
    let mut c = CameraController::new(0);
    c.process_keyboard(Key::KeyG, true);
    c.process_keyboard(Key::Space, true);
    let mut last_jump: Option<u128> = None;
    let mut jumps = 0;
    let mut now: u128 = 0;
    while now <= 3_000_000_000 {
        if c.tick_plan(now).jump {
            if let Some(t) = last_jump {
                assert!(now >= t + 500_000_000);
            }
            last_jump = Some(now);
            jumps += 1;
        }
        now += 50_000_000;
    }
    assert_eq!(jumps, 6);
}

#[test]
fn tick_plan_clock_before_last_jump_does_not_jump() {
    let mut c = CameraController::new(2_000_000_000);
    c.process_keyboard(Key::Space, true);
    let plan = c.tick_plan(0);
    assert!(!plan.jump);
    assert_eq!(c.last_jump_ns, 2_000_000_000);
}

#[test]
fn update_on_ground_looks_three_blocks_down() {
    let mut set = BlockSet::new();
    set.insert(Block::new(4, 10, 7));
    let mut c = CameraController::new(0);
    c.update_on_ground(4, 13, 7, &set);
    assert!(c.on_ground);
    c.update_on_ground(4, 12, 7, &set);
    assert!(!c.on_ground);
    c.update_on_ground(4, 3, 7, &set);
    assert!(!c.on_ground);
}

#[test]
fn instances_agree_between_culling_and_chunk() {
    let blocks = [
        block(1, 2, 3, BlockTexture::Dirt, 0b010101),
        block(3, 2, 1, BlockTexture::Moss, 0b111111),
        block(0, 0, 0, BlockTexture::Stone, 0b100000),
    ];
    let mut a = BlockSet::new();
    let mut b = BlockSet::new();
    for x in blocks.iter() {
        a.insert(*x);
    }
    for x in blocks.iter().rev() {
        b.insert(*x);
    }
    let mut edges = BlockSet::new();
    let mut from_culling: Vec<u32> =
        blocks_to_instances(&a, &mut edges).iter().map(|i| i.as_raw().0).collect();
    let mut from_chunk: Vec<u32> = Chunk::new((0, 0), b).instance_data.iter().map(|r| r.0).collect();
    from_culling.sort();
    from_chunk.sort();
    assert_eq!(from_culling.len(), 10);
    assert_eq!(from_culling, from_chunk);
}

#[test]
fn release_after_press_is_neutral() {
    let mut c = CameraController::new(0);
    for key in [Key::KeyW, Key::KeyS, Key::KeyA, Key::KeyD, Key::Space, Key::ShiftLeft, Key::ControlLeft] {
        c.process_keyboard(key, true);
        c.process_keyboard(key, false);
    }
    assert_eq!(c.input, KeyboardInput { x: 0, y: 0, z: 0, sprint: false, sneak: false });
}

#[test]
fn packing_distinguishes_instances() {
    let mut seen = std::collections::HashSet::new();
    let faces = [Face::Left, Face::Right, Face::Top, Face::Bottom, Face::Front, Face::Back];
    for x in [0u8, 1, 63] {
        for y in [0u8, 5, 63] {
            for z in [0u8, 62, 63] {
                for f in faces.iter() {
                    let inst = Instance { position: Position { x, y, z }, face: *f };
                    assert!(seen.insert(inst.as_raw().0));
                }
            }
        }
    }
}
