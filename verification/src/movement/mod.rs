//! The player controller's decisions: which keys move the player, how a
//! tick accelerates it, and whether it stands on the ground.
pub mod collision;

use vstd::prelude::*;
use crate::rendering::block::{BlockSet, new_block};

verus! {

/// The keys the controller reacts to; every other key is `Other`.
#[derive(Debug, Clone, Copy, PartialEq, Eq, Structural)]
pub enum Key {
    KeyW,
    ArrowUp,
    KeyS,
    ArrowDown,
    KeyA,
    ArrowLeft,
    KeyD,
    ArrowRight,
    Space,
    ShiftLeft,
    ControlLeft,
    KeyG,
    Other,
}

/// The keyboard state: the direction asked for along each axis (-1, 0 or
/// 1; x to the right, y up, z forward) and the sprint and sneak keys.
#[derive(Debug, Clone, Copy, PartialEq, Eq, Structural)]
pub struct KeyboardInput {
    pub x: i8,
    pub y: i8,
    pub z: i8,
    pub sprint: bool,
    pub sneak: bool,
}

/// The discrete state of the camera controller.
#[derive(Debug, Clone, Copy, PartialEq, Eq, Structural)]
pub struct CameraController {
    pub input: KeyboardInput,
    pub on_ground: bool,
    pub gravity_enabled: bool,
    /// Clock reading, in nanoseconds, of the last jump.
    pub last_jump_ns: u128,
}

/// How strongly the player accelerates in a tick.
#[derive(Debug, Clone, Copy, PartialEq, Eq, Structural)]
pub enum Acceleration {
    /// The base acceleration.
    Walk,
    /// Sprinting under gravity: 1.3 times the base.
    Sprint,
    /// Sprinting while flying: 5 times the base.
    FlySprint,
    /// Sneaking under gravity: 0.3 times the base.
    Sneak,
}

/// What happens to the vertical velocity in a tick.
#[derive(Debug, Clone, Copy, PartialEq, Eq, Structural)]
pub enum Vertical {
    /// It becomes the jump velocity.
    Jump,
    /// It becomes zero.
    Stand,
    /// Gravity pulls it down, with drag.
    Fall,
    /// It becomes the upward flying speed.
    FlyUp,
    /// It becomes the downward flying speed.
    FlyDown,
}

/// The decisions of one tick, which the caller turns into velocities.
#[derive(Debug, Clone, Copy, PartialEq, Eq, Structural)]
pub struct TickPlan {
    /// The player jumps this tick (and the jump time is to be reset).
    pub jump: bool,
    /// The acceleration the horizontal velocity gets.
    pub acceleration: Acceleration,
    /// The ground's friction applies (otherwise air drag does).
    pub grounded: bool,
    /// What the vertical velocity becomes.
    pub vertical: Vertical,
    /// A sprinting jump adds a boost along x and z.
    pub sprint_jump: bool,
}

/// Nanoseconds that must pass between two jumps.
pub const JUMP_COOLDOWN_NS: u128 = 500_000_000;

/// Time from `last` to `now`, zero if the clock reads earlier than `last`.
pub open spec fn elapsed_since(last: u128, now: u128) -> int {
    if now >= last {
        now - last
    } else {
        0
    }
}

/// The value a key sets an axis or flag to: 1 while pressed, 0 once released.
pub open spec fn key_amount(pressed: bool) -> i8 {
    if pressed {
        1
    } else {
        0
    }
}

/// The keys the controller handles.
pub open spec fn key_handled(key: Key) -> bool {
    key != Key::Other
}

/// The controller after a key event.
pub open spec fn after_key(c: CameraController, key: Key, pressed: bool) -> CameraController {
    let amount = key_amount(pressed);
    let input = c.input;
    match key {
        Key::KeyW | Key::ArrowUp => CameraController { input: KeyboardInput { z: amount, ..input }, ..c },
        Key::KeyS | Key::ArrowDown => CameraController {
            input: KeyboardInput { z: (-amount) as i8, ..input },
            ..c
        },
        Key::KeyA | Key::ArrowLeft => CameraController {
            input: KeyboardInput { x: (-amount) as i8, ..input },
            ..c
        },
        Key::KeyD | Key::ArrowRight => CameraController {
            input: KeyboardInput { x: amount, ..input },
            ..c
        },
        Key::Space => CameraController { input: KeyboardInput { y: amount, ..input }, ..c },
        Key::ShiftLeft => CameraController { input: KeyboardInput { sneak: pressed, ..input }, ..c },
        Key::ControlLeft => CameraController {
            input: KeyboardInput { sprint: pressed, ..input },
            ..c
        },
        Key::KeyG => if pressed {
            CameraController { gravity_enabled: !c.gravity_enabled, ..c }
        } else {
            c
        },
        Key::Other => c,
    }
}

/// The acceleration a tick gets.
pub open spec fn tick_acceleration(input: KeyboardInput, gravity_enabled: bool) -> Acceleration {
    if input.sprint {
        if gravity_enabled {
            Acceleration::Sprint
        } else {
            Acceleration::FlySprint
        }
    } else if input.sneak && gravity_enabled {
        Acceleration::Sneak
    } else {
        Acceleration::Walk
    }
}

/// What the vertical velocity becomes in a tick: flying down wins over
/// flying up, which wins over jumping, standing and falling.
pub open spec fn tick_vertical(
    input: KeyboardInput,
    gravity_enabled: bool,
    jump: bool,
    on_ground: bool,
) -> Vertical {
    if !gravity_enabled && input.sneak {
        Vertical::FlyDown
    } else if !gravity_enabled && input.y > 0 {
        Vertical::FlyUp
    } else if jump {
        Vertical::Jump
    } else if on_ground {
        Vertical::Stand
    } else {
        Vertical::Fall
    }
}

/// The controller and the decisions after a tick at clock reading `now`.
pub open spec fn tick_result(c: CameraController, now: u128) -> (CameraController, TickPlan) {
    let on_ground = c.on_ground || !c.gravity_enabled;
    let jump = c.input.y == 1 && on_ground && elapsed_since(c.last_jump_ns, now)
        >= JUMP_COOLDOWN_NS;
    (
        CameraController {
            on_ground,
            last_jump_ns: if jump {
                now
            } else {
                c.last_jump_ns
            },
            ..c
        },
        TickPlan {
            jump,
            acceleration: tick_acceleration(c.input, c.gravity_enabled),
            grounded: on_ground,
            vertical: tick_vertical(c.input, c.gravity_enabled, jump, on_ground),
            sprint_jump: jump && c.input.sprint,
        },
    )
}

/// The controller after ticks at the first `k` clock readings of `times`.
pub open spec fn controller_after(c: CameraController, times: Seq<u128>, k: nat) -> CameraController
    decreases k,
{
    if k == 0 {
        c
    } else {
        tick_result(controller_after(c, times, (k - 1) as nat), times[k - 1]).0
    }
}

/// Whether the tick at clock reading `times[k]` jumps.
pub open spec fn jumps_at(c: CameraController, times: Seq<u128>, k: nat) -> bool {
    tick_result(controller_after(c, times, k), times[k as int]).1.jump
}

/// The clock readings never go backwards.
pub open spec fn nondecreasing(times: Seq<u128>) -> bool {
    forall|i: int, j: int| 0 <= i <= j < times.len() ==> times[i] <= times[j]
}

proof fn lemma_last_jump_not_before(c: CameraController, times: Seq<u128>, i: nat, k: nat)
    requires
        nondecreasing(times),
        i < k <= times.len(),
        jumps_at(c, times, i),
    ensures
        controller_after(c, times, k).last_jump_ns >= times[i as int],
    decreases k,
{
    if k > i + 1 {
        lemma_last_jump_not_before(c, times, i, (k - 1) as nat);
    }
}

/// Over any run of ticks whose clock readings never go backwards, two jumps
/// are at least `JUMP_COOLDOWN_NS` apart.
pub proof fn lemma_jumps_spaced_by_cooldown(c: CameraController, times: Seq<u128>, i: nat, j: nat)
    requires
        nondecreasing(times),
        i < j < times.len(),
        jumps_at(c, times, i),
        jumps_at(c, times, j),
    ensures
        times[j as int] >= times[i as int] + JUMP_COOLDOWN_NS,
{
    lemma_last_jump_not_before(c, times, i, j);
}

impl CameraController {
    /// A controller at clock reading `now_ns` with no key held, standing on
    /// the ground, gravity off; its last jump counts as happening now.
    pub fn new(now_ns: u128) -> (c: CameraController)
        ensures
            c.input == (KeyboardInput { x: 0, y: 0, z: 0, sprint: false, sneak: false }),
            c.on_ground,
            !c.gravity_enabled,
            c.last_jump_ns == now_ns,
    {
        CameraController {
            input: KeyboardInput { x: 0, y: 0, z: 0, sprint: false, sneak: false },
            on_ground: true,
            gravity_enabled: false,
            last_jump_ns: now_ns,
        }
    }

    /// Applies a key press or release; returns whether the key is one the
    /// controller handles. Movement keys set their axis to the key's
    /// direction while pressed and to 0 once released, shift and control
    /// set sneak and sprint, and pressing G toggles gravity.
    pub fn process_keyboard(&mut self, key: Key, pressed: bool) -> (handled: bool)
        ensures
            handled == key_handled(key),
            *final(self) == after_key(*old(self), key, pressed),
    {
        let amount: i8 = if pressed {
            1
        } else {
            0
        };
        match key {
            Key::KeyW | Key::ArrowUp => self.input.z = amount,
            Key::KeyS | Key::ArrowDown => self.input.z = -amount,
            Key::KeyA | Key::ArrowLeft => self.input.x = -amount,
            Key::KeyD | Key::ArrowRight => self.input.x = amount,
            Key::Space => self.input.y = amount,
            Key::ShiftLeft => self.input.sneak = pressed,
            Key::ControlLeft => self.input.sprint = pressed,
            Key::KeyG => {
                if pressed {
                    self.gravity_enabled = !self.gravity_enabled
                }
            },
            Key::Other => return false,
        };
        true
    }

    /// The decisions of one physics tick at clock reading `now_ns`
    /// (nanoseconds). Without gravity the player counts as standing on the
    /// ground. A jump happens when up is held, the player stands on the
    /// ground and at least `JUMP_COOLDOWN_NS` have passed since the last
    /// jump; the jump time then becomes `now_ns`.
    pub fn tick_plan(&mut self, now_ns: u128) -> (plan: TickPlan)
        ensures
            (*final(self), plan) == tick_result(*old(self), now_ns),
    {
        if !self.gravity_enabled {
            self.on_ground = true
        }
        let since_last_jump = if now_ns >= self.last_jump_ns {
            now_ns - self.last_jump_ns
        } else {
            0
        };
        let do_jump = self.input.y == 1 && self.on_ground && since_last_jump >= JUMP_COOLDOWN_NS;
        if do_jump {
            self.last_jump_ns = now_ns;
        }
        let acceleration = if self.input.sprint {
            if self.gravity_enabled {
                Acceleration::Sprint
            } else {
                Acceleration::FlySprint
            }
        } else if self.input.sneak && self.gravity_enabled {
            Acceleration::Sneak
        } else {
            Acceleration::Walk
        };
        let mut vertical = if do_jump {
            Vertical::Jump
        } else if self.on_ground {
            Vertical::Stand
        } else {
            Vertical::Fall
        };
        if !self.gravity_enabled && self.input.y > 0 {
            vertical = Vertical::FlyUp
        }
        if !self.gravity_enabled && self.input.sneak {
            vertical = Vertical::FlyDown
        }
        TickPlan {
            jump: do_jump,
            acceleration,
            grounded: self.on_ground,
            vertical,
            sprint_jump: do_jump && self.input.sprint,
        }
    }

    /// Updates whether the player stands on the ground, from the block
    /// column `(x, y, z)` of the camera (each coordinate floored and cast to
    /// a byte): it does when the stone block made by `Block::new` three
    /// blocks below the camera is in `blocks`.
    pub fn update_on_ground(&mut self, block_x: u8, block_y: u8, block_z: u8, blocks: &BlockSet)
        requires
            block_y >= 3,
        ensures
            final(self).on_ground == blocks@.contains(
                new_block(block_x, (block_y - 3) as u8, block_z),
            ),
            final(self).input == old(self).input,
            final(self).gravity_enabled == old(self).gravity_enabled,
            final(self).last_jump_ns == old(self).last_jump_ns,
    {
        let block_below = crate::rendering::block::Block::new(block_x, block_y - 3, block_z);
        self.on_ground = blocks.contains(&block_below);
    }
}

/// Pressing G twice gives back the controller it started from.
pub proof fn lemma_gravity_toggle_twice(c: CameraController)
    ensures
        after_key(after_key(c, Key::KeyG, true), Key::KeyG, true) == c,
{
}

/// Releasing a movement, sprint or sneak key leaves the input it drives
/// neutral, whatever was held before.
pub proof fn lemma_release_is_neutral(c: CameraController, key: Key)
    ensures
        ({
            let input = after_key(c, key, false).input;
            &&& (key == Key::KeyW || key == Key::ArrowUp || key == Key::KeyS || key
                == Key::ArrowDown) ==> input.z == 0
            &&& (key == Key::KeyA || key == Key::ArrowLeft || key == Key::KeyD || key
                == Key::ArrowRight) ==> input.x == 0
            &&& key == Key::Space ==> input.y == 0
            &&& key == Key::ShiftLeft ==> !input.sneak
            &&& key == Key::ControlLeft ==> !input.sprint
        }),
{
}

/// A tick jumps exactly when up is held, the player stands on the ground
/// or flies, and the clock reads at least 500 ms (500 000 000 ns) past the
/// last jump; a jump moves the last-jump time to now, and no other tick
/// touches it.
pub proof fn lemma_jump_rule(c: CameraController, now: u128)
    ensures
        tick_result(c, now).1.jump <==> (c.input.y == 1 && (c.on_ground || !c.gravity_enabled)
            && now >= c.last_jump_ns + 500_000_000),
        tick_result(c, now).1.jump ==> tick_result(c, now).0.last_jump_ns == now,
        !tick_result(c, now).1.jump ==> tick_result(c, now).0.last_jump_ns == c.last_jump_ns,
        tick_result(c, now).1.sprint_jump <==> (tick_result(c, now).1.jump && c.input.sprint),
{
}

/// Waiting longer never takes a jump away: if a tick at `now` jumps, a tick
/// of the same controller at any later clock reading jumps too.
pub proof fn lemma_jump_monotone(c: CameraController, now: u128, later: u128)
    requires
        now <= later,
        tick_result(c, now).1.jump,
    ensures
        tick_result(c, later).1.jump,
{
}

/// What a tick does to the vertical velocity: flying down while gravity is
/// off and sneak is held, else flying up while gravity is off and up is
/// held; under gravity the player jumps on a jump, stands on the ground and
/// falls otherwise; without gravity and neither key, it stands or jumps.
/// The player counts as on the ground afterwards exactly when it was or
/// gravity is off.
pub proof fn lemma_vertical_rule(c: CameraController, now: u128)
    ensures
        ({
            let (after, plan) = tick_result(c, now);
            &&& after.on_ground == (c.on_ground || !c.gravity_enabled)
            &&& plan.grounded == after.on_ground
            &&& (!c.gravity_enabled && c.input.sneak) ==> plan.vertical == Vertical::FlyDown
            &&& (!c.gravity_enabled && !c.input.sneak && c.input.y > 0) ==> plan.vertical
                == Vertical::FlyUp
            &&& (!c.gravity_enabled && !c.input.sneak && c.input.y <= 0) ==> plan.vertical
                == Vertical::Stand
            &&& c.gravity_enabled ==> (plan.vertical == Vertical::Jump <==> plan.jump)
            &&& (c.gravity_enabled && !plan.jump && c.on_ground) ==> plan.vertical
                == Vertical::Stand
            &&& (c.gravity_enabled && !c.on_ground) ==> plan.vertical == Vertical::Fall
            &&& after.input == c.input && after.gravity_enabled == c.gravity_enabled
        }),
{
}

/// The acceleration of a tick: sprint wins (flying sprint without gravity),
/// then sneaking under gravity, else walking.
pub proof fn lemma_acceleration_rule(c: CameraController, now: u128)
    ensures
        ({
            let a = tick_result(c, now).1.acceleration;
            &&& (c.input.sprint && c.gravity_enabled) ==> a == Acceleration::Sprint
            &&& (c.input.sprint && !c.gravity_enabled) ==> a == Acceleration::FlySprint
            &&& (!c.input.sprint && c.input.sneak && c.gravity_enabled) ==> a
                == Acceleration::Sneak
            &&& (!c.input.sprint && !(c.input.sneak && c.gravity_enabled)) ==> a
                == Acceleration::Walk
        }),
{
}

/// What pressing each key does: forward keys (W, up arrow) set z to 1,
/// backward keys (S, down arrow) set z to -1, left keys (A, left arrow) set
/// x to -1, right keys (D, right arrow) set x to 1, space sets y to 1, shift
/// holds sneak, control holds sprint, G flips gravity; nothing else changes,
/// and any other key changes nothing.
pub proof fn lemma_press_effects(c: CameraController, key: Key)
    ensures
        ({
            let after = after_key(c, key, true);
            let i = after.input;
            &&& (key == Key::KeyW || key == Key::ArrowUp) ==> i == (KeyboardInput {
                z: 1,
                ..c.input
            })
            &&& (key == Key::KeyS || key == Key::ArrowDown) ==> i == (KeyboardInput {
                z: -1i8,
                ..c.input
            })
            &&& (key == Key::KeyA || key == Key::ArrowLeft) ==> i == (KeyboardInput {
                x: -1i8,
                ..c.input
            })
            &&& (key == Key::KeyD || key == Key::ArrowRight) ==> i == (KeyboardInput {
                x: 1,
                ..c.input
            })
            &&& key == Key::Space ==> i == (KeyboardInput { y: 1, ..c.input })
            &&& key == Key::ShiftLeft ==> i == (KeyboardInput { sneak: true, ..c.input })
            &&& key == Key::ControlLeft ==> i == (KeyboardInput { sprint: true, ..c.input })
            &&& key == Key::KeyG ==> i == c.input && after.gravity_enabled == !c.gravity_enabled
            &&& key != Key::KeyG ==> after.gravity_enabled == c.gravity_enabled
            &&& key == Key::Other ==> after == c
            &&& after.on_ground == c.on_ground
            &&& after.last_jump_ns == c.last_jump_ns
            &&& key_handled(key) <==> key != Key::Other
        }),
{
}

} // verus!
