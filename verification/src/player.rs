//! A player's avatar and the decisions of a movement step that do not
//! depend on arithmetic: which axis a key pair asks for, whether a jump stays
//! pending, and what a step does to the vertical velocity.

use crate::networking::{PlayerInput, Quat, Vec3, EntityRow, NEG_ONE_BITS, ONE_BITS, ZERO_BITS};
use vstd::prelude::*;

verus! {

/// Bit pattern of the height `0.51` at which avatars appear.
pub const SPAWN_HEIGHT_BITS: u32 = 0x3F02_8F5C;

/// One connected player's avatar as the server simulates it.
#[derive(Clone, Copy, Debug, PartialEq, Eq)]
pub struct PlayerEntity {
    /// The id of the connection that steers it.
    pub id: u64,
    pub translation: Vec3,
    pub rotation: Quat,
    pub velocity: Vec3,
    pub grounded: bool,
    /// The input most recently received for it.
    pub input: PlayerInput,
}

/// Where every avatar appears: `(0, 0.51, 0)`.
pub open spec fn spawn_point() -> Vec3 {
    Vec3 { x: ZERO_BITS, y: SPAWN_HEIGHT_BITS, z: ZERO_BITS }
}

impl PlayerEntity {
    /// The avatar of a connection that has just become active: at the spawn
    /// point, unrotated, at rest, on the ground, with neutral input.
    pub open spec fn spec_spawn(id: u64) -> PlayerEntity {
        PlayerEntity {
            id,
            translation: spawn_point(),
            rotation: Quat::spec_identity(),
            velocity: Vec3::spec_zero(),
            grounded: true,
            input: PlayerInput::spec_neutral(),
        }
    }

    /// The avatar of a connection that has just become active.
    #[verifier::when_used_as_spec(spec_spawn)]
    pub fn spawn(id: u64) -> (entity: PlayerEntity)
        ensures
            entity == PlayerEntity::spec_spawn(id),
    {
        PlayerEntity {
            id,
            translation: Vec3 { x: ZERO_BITS, y: SPAWN_HEIGHT_BITS, z: ZERO_BITS },
            rotation: Quat::identity(),
            velocity: Vec3::zero(),
            grounded: true,
            input: PlayerInput::neutral(),
        }
    }

    /// The avatar's row in a frame, under the handle `entity`.
    pub open spec fn spec_row(&self, entity: u64) -> EntityRow {
        EntityRow {
            entity,
            translation: self.translation,
            rotation: self.rotation,
            velocity: self.velocity,
            grounded: self.grounded,
        }
    }

    /// The avatar's row in a frame, under the handle `entity`.
    #[verifier::when_used_as_spec(spec_row)]
    pub fn row(&self, entity: u64) -> (row: EntityRow)
        ensures
            row == self.spec_row(entity),
    {
        EntityRow {
            entity,
            translation: self.translation,
            rotation: self.rotation,
            velocity: self.velocity,
            grounded: self.grounded,
        }
    }
}

/// What a key can be bound to.
#[derive(Clone, Copy, Debug, PartialEq, Eq, Hash, Structural)]
pub enum InputAction {
    Forward,
    Back,
    Left,
    Right,
    Jump,
}

/// The actions whose keys are down at one moment.
#[derive(Clone, Copy, Debug, PartialEq, Eq, Structural)]
pub struct Held {
    pub forward: bool,
    pub back: bool,
    pub left: bool,
    pub right: bool,
    pub jump: bool,
}

impl Held {
    /// No key is down.
    pub open spec fn spec_none() -> Held {
        Held { forward: false, back: false, left: false, right: false, jump: false }
    }

    /// No key is down.
    #[verifier::when_used_as_spec(spec_none)]
    pub fn none() -> (held: Held)
        ensures
            held == Held::spec_none(),
    {
        Held { forward: false, back: false, left: false, right: false, jump: false }
    }

    /// Whether a key bound to `action` is down.
    pub open spec fn spec_holds(&self, action: InputAction) -> bool {
        match action {
            InputAction::Forward => self.forward,
            InputAction::Back => self.back,
            InputAction::Left => self.left,
            InputAction::Right => self.right,
            InputAction::Jump => self.jump,
        }
    }

    /// Whether a key bound to `action` is down.
    #[verifier::when_used_as_spec(spec_holds)]
    pub fn holds(&self, action: InputAction) -> (down: bool)
        ensures
            down == self.spec_holds(action),
    {
        match action {
            InputAction::Forward => self.forward,
            InputAction::Back => self.back,
            InputAction::Left => self.left,
            InputAction::Right => self.right,
            InputAction::Jump => self.jump,
        }
    }

    /// The same keys, but with `action` down or up as `down` says.
    pub open spec fn spec_with(self, action: InputAction, down: bool) -> Held {
        match action {
            InputAction::Forward => Held { forward: down, ..self },
            InputAction::Back => Held { back: down, ..self },
            InputAction::Left => Held { left: down, ..self },
            InputAction::Right => Held { right: down, ..self },
            InputAction::Jump => Held { jump: down, ..self },
        }
    }

    /// A key bound to `action` went down.
    pub fn press(&mut self, action: InputAction)
        ensures
            *final(self) == old(self).spec_with(action, true),
    {
        match action {
            InputAction::Forward => self.forward = true,
            InputAction::Back => self.back = true,
            InputAction::Left => self.left = true,
            InputAction::Right => self.right = true,
            InputAction::Jump => self.jump = true,
        }
    }

    /// The key bound to `action` came up.
    pub fn release(&mut self, action: InputAction)
        ensures
            *final(self) == old(self).spec_with(action, false),
    {
        match action {
            InputAction::Forward => self.forward = false,
            InputAction::Back => self.back = false,
            InputAction::Left => self.left = false,
            InputAction::Right => self.right = false,
            InputAction::Jump => self.jump = false,
        }
    }
}

/// What one tick of sampling sees: the movement keys as they are now, and
/// for the jump key whether it went down or came up since the tick before.
pub open spec fn spec_keys_between(before: Held, now: Held) -> Keys {
    Keys {
        forward: now.forward,
        back: now.back,
        right: now.right,
        left: now.left,
        jump_pressed: now.jump && !before.jump,
        jump_released: before.jump && !now.jump,
    }
}

/// What one tick of sampling sees, from the keys held at the tick before
/// and those held now.
#[verifier::when_used_as_spec(spec_keys_between)]
pub fn keys_between(before: Held, now: Held) -> (keys: Keys)
    ensures
        keys == spec_keys_between(before, now),
{
    Keys {
        forward: now.forward,
        back: now.back,
        right: now.right,
        left: now.left,
        jump_pressed: now.jump && !before.jump,
        jump_released: before.jump && !now.jump,
    }
}

/// The keys that steer an avatar, as sampled for one tick.
#[derive(Clone, Copy, Debug, PartialEq, Eq, Structural)]
pub struct Keys {
    pub forward: bool,
    pub back: bool,
    pub right: bool,
    pub left: bool,
    /// The jump key went down during this tick.
    pub jump_pressed: bool,
    /// The jump key came up during this tick.
    pub jump_released: bool,
}

/// The axis value that a pair of opposite keys asks for: `1.0` for the
/// positive key alone, `-1.0` for the negative key alone, `0.0` for both or
/// neither.
pub open spec fn spec_axis(positive: bool, negative: bool) -> u32 {
    if positive && !negative {
        ONE_BITS
    } else if negative && !positive {
        NEG_ONE_BITS
    } else {
        ZERO_BITS
    }
}

/// The axis value that a pair of opposite keys asks for.
#[verifier::when_used_as_spec(spec_axis)]
pub fn axis(positive: bool, negative: bool) -> (bits: u32)
    ensures
        bits == spec_axis(positive, negative),
{
    if positive && !negative {
        ONE_BITS
    } else if negative && !positive {
        NEG_ONE_BITS
    } else {
        ZERO_BITS
    }
}

/// Whether a jump is pending after a tick: one that was pending or newly
/// pressed, unless the key was released.
pub open spec fn spec_latch_jump(pending: bool, pressed: bool, released: bool) -> bool {
    (pending || pressed) && !released
}

/// Whether a jump is pending after a tick.
#[verifier::when_used_as_spec(spec_latch_jump)]
pub fn latch_jump(pending: bool, pressed: bool, released: bool) -> (latched: bool)
    ensures
        latched == spec_latch_jump(pending, pressed, released),
{
    (pending || pressed) && !released
}

/// The input record after one tick of sampling: axes from the keys, the jump
/// latched, the aim ray replaced where the cursor gave one, and the newest
/// tick seen from the server.
pub open spec fn spec_player_input(
    previous: PlayerInput,
    keys: Keys,
    aim: Option<crate::networking::Ray>,
    most_recent_tick: Option<u32>,
) -> PlayerInput {
    PlayerInput {
        forward: spec_axis(keys.forward, keys.back),
        right: spec_axis(keys.right, keys.left),
        jump: spec_latch_jump(previous.jump, keys.jump_pressed, keys.jump_released),
        aim_ray: match aim {
            Some(ray) => ray,
            None => previous.aim_ray,
        },
        most_recent_tick,
    }
}

/// Samples one tick of input into the record of the locally steered avatar.
pub fn player_input(
    input: &mut PlayerInput,
    keys: Keys,
    aim: Option<crate::networking::Ray>,
    most_recent_tick: Option<u32>,
)
    ensures
        *final(input) == spec_player_input(*old(input), keys, aim, most_recent_tick),
{
    input.most_recent_tick = most_recent_tick;
    input.forward = axis(keys.forward, keys.back);
    input.right = axis(keys.right, keys.left);
    input.jump = latch_jump(input.jump, keys.jump_pressed, keys.jump_released);
    if let Some(ray) = aim {
        input.aim_ray = ray;
    }
}

/// What a movement step does to the vertical velocity.
#[derive(Clone, Copy, Debug, PartialEq, Eq, Structural)]
pub enum Vertical {
    /// Leave the ground: vertical velocity becomes the launch speed.
    Launch,
    /// Stay on the ground: vertical velocity becomes zero.
    Snap,
    /// Airborne: vertical velocity is left to gravity.
    Fall,
}

/// The outcome of the jump stage of a movement step.
#[derive(Clone, Copy, Debug, PartialEq, Eq, Structural)]
pub struct JumpStage {
    pub grounded: bool,
    pub jump: bool,
    pub vertical: Vertical,
}

/// The jump stage: on the ground with a jump pending the avatar takes off
/// and the pending jump is consumed; on the ground without one it is snapped
/// to the ground; in the air nothing changes.
pub open spec fn spec_jump_stage(on_ground: bool, jump: bool) -> JumpStage {
    if on_ground && jump {
        JumpStage { grounded: false, jump: false, vertical: Vertical::Launch }
    } else if on_ground {
        JumpStage { grounded: true, jump: false, vertical: Vertical::Snap }
    } else {
        JumpStage { grounded: false, jump, vertical: Vertical::Fall }
    }
}

/// The jump stage of a movement step, from the ground probe's answer and the
/// pending-jump flag.
#[verifier::when_used_as_spec(spec_jump_stage)]
pub fn jump_stage(on_ground: bool, jump: bool) -> (stage: JumpStage)
    ensures
        stage == spec_jump_stage(on_ground, jump),
{
    if on_ground && jump {
        JumpStage { grounded: false, jump: false, vertical: Vertical::Launch }
    } else if on_ground {
        JumpStage { grounded: true, jump: false, vertical: Vertical::Snap }
    } else {
        JumpStage { grounded: false, jump, vertical: Vertical::Fall }
    }
}

/// A jump asked for while airborne stays pending while the key is held and
/// is taken on the first step on the ground; once taken it is not taken
/// again until the key has come up and gone down anew.
pub proof fn held_jump_is_taken_once(pending: bool, before: Held, now: Held)
    ensures
        ({
            let keys = spec_keys_between(before, now);
            let latched = spec_latch_jump(pending, keys.jump_pressed, keys.jump_released);
            &&& (!before.jump && now.jump) ==> latched
            &&& (before.jump && now.jump) ==> latched == pending
            &&& !now.jump ==> (latched == (pending && !before.jump))
            &&& spec_jump_stage(false, latched).jump == latched
            &&& !spec_jump_stage(true, latched).jump
            &&& (spec_jump_stage(true, latched).vertical == Vertical::Launch) == latched
        }),
{
}

} // verus!
