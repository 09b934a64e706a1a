use isotokyo::animation::Directions;
use isotokyo::config::{MoveTerms, PhysicsConfig};
use isotokyo::networking::{
    client_connection_config, server_connection_config, ChannelSpec, ClientChannel, Delivery,
    EntityRow, NetworkedEntities, PlayerInput, Quat, Ray, ServerChannel, Vec3, NEG_ONE_BITS,
    ONE_BITS, PROTOCOL_ID, ZERO_BITS,
};
use isotokyo::player::{
    axis, jump_stage, keys_between, latch_jump, player_input, Held, InputAction, JumpStage, Keys,
    Vertical, SPAWN_HEIGHT_BITS,
};
use isotokyo::table::HandleTable;

#[test]
fn bit_patterns_are_those_of_the_numbers() {
    assert_eq!(ZERO_BITS, 0.0f32.to_bits());
    assert_eq!(ONE_BITS, 1.0f32.to_bits());
    assert_eq!(NEG_ONE_BITS, (-1.0f32).to_bits());
    assert_eq!(SPAWN_HEIGHT_BITS, 0.51f32.to_bits());
    assert_eq!(Quat::identity().w, 1.0f32.to_bits());
    assert_eq!(Vec3::zero(), Vec3 { x: 0, y: 0, z: 0 });
    assert_eq!(PROTOCOL_ID, 7);
}

#[test]
fn channel_ids() {
    assert_eq!(ClientChannel::Input.id(), 0);
    assert_eq!(ClientChannel::Command.id(), 1);
    assert_eq!(ServerChannel::NetworkFrame.id(), 0);
    assert_eq!(ServerChannel::ServerMessages.id(), 1);
}

#[test]
fn channel_configs() {
    assert_eq!(
        ClientChannel::channels_config(),
        vec![
            ChannelSpec { channel_id: 0, delivery: Delivery::Reliable { resend_millis: 0 } },
            ChannelSpec { channel_id: 1, delivery: Delivery::Reliable { resend_millis: 0 } },
        ]
    );
    assert_eq!(
        ServerChannel::channels_config(),
        vec![
            ChannelSpec { channel_id: 0, delivery: Delivery::Unreliable },
            ChannelSpec { channel_id: 1, delivery: Delivery::Reliable { resend_millis: 200 } },
        ]
    );
    let c = client_connection_config();
    let s = server_connection_config();
    assert_eq!(c.send_channels, s.receive_channels);
    assert_eq!(c.receive_channels, s.send_channels);
    assert_eq!(c.send_channels, ClientChannel::channels_config());
    assert_eq!(s.send_channels, ServerChannel::channels_config());
}

#[test]
fn axis_values() {
    assert_eq!(axis(true, false), 1.0f32.to_bits());
    assert_eq!(axis(false, true), (-1.0f32).to_bits());
    assert_eq!(axis(true, true), 0.0f32.to_bits());
    assert_eq!(axis(false, false), 0.0f32.to_bits());
}

#[test]
fn jump_latch() {
    assert!(latch_jump(false, true, false));
    assert!(latch_jump(true, false, false));
    assert!(!latch_jump(true, false, true));
    assert!(!latch_jump(false, true, true));
    assert!(!latch_jump(false, false, false));
}

#[test]
fn sampling_keeps_aim_without_cursor() {
    let aim = Ray {
        origin: Vec3 { x: 1, y: 2, z: 3 },
        direction: Vec3 { x: 4, y: 5, z: 6 },
    };
    let mut input = PlayerInput::default();
    let keys = Keys {
        forward: true,
        back: false,
        right: false,
        left: true,
        jump_pressed: true,
        jump_released: false,
    };
    player_input(&mut input, keys, Some(aim), Some(12));
    assert_eq!(
        input,
        PlayerInput {
            forward: ONE_BITS,
            right: NEG_ONE_BITS,
            jump: true,
            aim_ray: aim,
            most_recent_tick: Some(12),
        }
    );
    let idle = Keys {
        forward: false,
        back: false,
        right: false,
        left: false,
        jump_pressed: false,
        jump_released: false,
    };
    player_input(&mut input, idle, None, None);
    assert_eq!(
        input,
        PlayerInput {
            forward: ZERO_BITS,
            right: ZERO_BITS,
            jump: true,
            aim_ray: aim,
            most_recent_tick: None,
        }
    );
    let release = Keys { jump_released: true, ..idle };
    player_input(&mut input, release, None, Some(13));
    assert!(!input.jump);
}

#[test]
fn jump_stage_cases() {
    assert_eq!(
        jump_stage(true, true),
        JumpStage { grounded: false, jump: false, vertical: Vertical::Launch }
    );
    assert_eq!(
        jump_stage(true, false),
        JumpStage { grounded: true, jump: false, vertical: Vertical::Snap }
    );
    assert_eq!(
        jump_stage(false, true),
        JumpStage { grounded: false, jump: true, vertical: Vertical::Fall }
    );
    assert_eq!(
        jump_stage(false, false),
        JumpStage { grounded: false, jump: false, vertical: Vertical::Fall }
    );
}

#[test]
fn columns_stay_aligned() {
    let mut columns = NetworkedEntities::default();
    assert!(columns.is_aligned());
    assert_eq!(columns.len(), 0);
    let row = EntityRow {
        entity: 3,
        translation: Vec3 { x: 1, y: 2, z: 3 },
        rotation: Quat { x: 4, y: 5, z: 6, w: 7 },
        velocity: Vec3 { x: 8, y: 9, z: 10 },
        grounded: true,
    };
    columns.push(row);
    assert!(columns.is_aligned());
    assert_eq!(columns.len(), 1);
    assert_eq!(columns.get(0), row);
    columns.velocities.pop();
    assert!(!columns.is_aligned());
}

#[test]
fn table_lookup() {
    let table = HandleTable::new();
    assert_eq!(table.get(0), None);
    assert_eq!(table.get(u64::MAX), None);
}

#[test]
fn sheet_cells() {
    assert_eq!(Directions::Column.cell(3, 5), (3, 5));
    assert_eq!(Directions::Row.cell(3, 5), (8, 0));
    assert_eq!(Directions::Row.cell(u32::MAX, 7), (u32::MAX as u64 + 7, 0));
    assert_eq!(Directions::Fixed.cell(3, 5), (0, 0));
}

#[test]
fn standard_constants() {
    let c = PhysicsConfig::default();
    assert_eq!(f32::from_bits(c.ground_speed), 3.0);
    assert_eq!(f32::from_bits(c.air_speed), 0.5);
    assert_eq!(f32::from_bits(c.ground_accel), 10.0);
    assert_eq!(f32::from_bits(c.air_accel), 1.0);
    assert_eq!(f32::from_bits(c.ground_friction), 5.0);
    assert_eq!(f32::from_bits(c.air_friction), 0.0);
    assert_eq!(f32::from_bits(c.gravity), 12.0);
    assert_eq!(f32::from_bits(c.jump_height), 0.5);
}

#[test]
fn terms_follow_the_ground_flag() {
    let c = PhysicsConfig::default();
    assert_eq!(
        c.terms(true),
        MoveTerms {
            friction: 5.0f32.to_bits(),
            accel: 10.0f32.to_bits(),
            wish_speed: 3.0f32.to_bits()
        }
    );
    assert_eq!(
        c.terms(false),
        MoveTerms {
            friction: 0.0f32.to_bits(),
            accel: 1.0f32.to_bits(),
            wish_speed: 0.5f32.to_bits()
        }
    );
}

#[test]
fn standard_jump_reaches_its_height() {
    let c = PhysicsConfig::default();
    let gravity = f32::from_bits(c.gravity);
    let jump_height = f32::from_bits(c.jump_height);
    let launch = (2.0 * jump_height * gravity).sqrt();
    assert!((launch - 3.464).abs() < 1e-3);
    let peak = launch * launch / (2.0 * gravity);
    assert!((peak - jump_height).abs() < 1e-6);
}

#[test]
fn key_edges() {
    let mut now = Held::none();
    assert!(!now.holds(InputAction::Jump));
    now.press(InputAction::Jump);
    now.press(InputAction::Forward);
    now.press(InputAction::Left);
    assert!(now.holds(InputAction::Jump));
    assert_eq!(
        now,
        Held { forward: true, back: false, left: true, right: false, jump: true }
    );
    let down = keys_between(Held::none(), now);
    assert_eq!(
        down,
        Keys {
            forward: true,
            back: false,
            right: false,
            left: true,
            jump_pressed: true,
            jump_released: false,
        }
    );
    let held = keys_between(now, now);
    assert!(!held.jump_pressed && !held.jump_released);
    let mut after = now;
    after.release(InputAction::Jump);
    after.release(InputAction::Forward);
    after.press(InputAction::Back);
    after.press(InputAction::Right);
    let up = keys_between(now, after);
    assert_eq!(
        up,
        Keys {
            forward: false,
            back: true,
            right: true,
            left: true,
            jump_pressed: false,
            jump_released: true,
        }
    );
}

#[test]
fn held_jump_registers_once() {
    let mut input = PlayerInput::default();
    let mut down = Held::none();
    down.press(InputAction::Jump);
    player_input(&mut input, keys_between(Held::none(), down), None, None);
    assert!(input.jump);
    player_input(&mut input, keys_between(down, down), None, None);
    assert!(input.jump);
    let stage = jump_stage(true, input.jump);
    assert_eq!(stage.vertical, Vertical::Launch);
    input.jump = stage.jump;
    player_input(&mut input, keys_between(down, down), None, None);
    assert!(!input.jump);
    assert_eq!(jump_stage(true, input.jump).vertical, Vertical::Snap);
}
