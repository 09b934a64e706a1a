use isotokyo::networking::{
    EntityRow, PlayerCommand, PlayerInput, Quat, Ray, ServerMessages, Vec3,
};
use isotokyo::player::{JumpStage, PlayerEntity, Vertical};
use isotokyo::server::{Inbox, Outgoing, Server, ServerEvent};

fn v3(x: f32, y: f32, z: f32) -> Vec3 {
    Vec3 { x: x.to_bits(), y: y.to_bits(), z: z.to_bits() }
}

fn identity() -> Quat {
    Quat { x: 0.0f32.to_bits(), y: 0.0f32.to_bits(), z: 0.0f32.to_bits(), w: 1.0f32.to_bits() }
}

fn forward_input(tick: Option<u32>) -> PlayerInput {
    PlayerInput {
        forward: 1.0f32.to_bits(),
        right: 0.0f32.to_bits(),
        jump: false,
        aim_ray: Ray { origin: v3(5.0, 5.0, 5.0), direction: v3(-1.0, -1.0, -1.0) },
        most_recent_tick: tick,
    }
}

fn created(entity: u64, id: u64) -> ServerMessages {
    ServerMessages::PlayerCreate { entity, id, translation: v3(0.0, 0.51, 0.0) }
}

#[test]
fn spawn_is_at_the_spawn_point() {
    let e = PlayerEntity::spawn(4);
    assert_eq!(e.id, 4);
    assert_eq!(e.translation, v3(0.0, 0.51, 0.0));
    assert_eq!(e.rotation, identity());
    assert_eq!(e.velocity, v3(0.0, 0.0, 0.0));
    assert!(e.grounded);
    assert_eq!(e.input, PlayerInput::default());
}

#[test]
fn first_connection_is_announced_to_all() {
    let mut server = Server::new();
    let out = server.connect(11);
    assert_eq!(out, vec![Outgoing::All { message: created(0, 11) }]);
    assert_eq!(server.handle_of(11), Some(0));
    assert_eq!(server.player(0), Some(PlayerEntity::spawn(11)));
}

#[test]
fn newcomer_is_told_of_existing_players_first() {
    let mut server = Server::new();
    server.connect(11);
    server.connect(12);
    assert!(server.set_motion(0, v3(1.0, 0.51, 2.0), identity(), v3(0.0, 0.0, 0.0)));
    let out = server.connect(13);
    assert_eq!(
        out,
        vec![
            Outgoing::To {
                client: 13,
                message: ServerMessages::PlayerCreate {
                    entity: 0,
                    id: 11,
                    translation: v3(1.0, 0.51, 2.0)
                }
            },
            Outgoing::To { client: 13, message: created(1, 12) },
            Outgoing::All { message: created(2, 13) },
        ]
    );
    assert_eq!(server.handles(), vec![0, 1, 2]);
}

#[test]
fn reconnecting_while_active_changes_nothing() {
    let mut server = Server::new();
    server.connect(11);
    assert_eq!(server.connect(11), vec![]);
    assert_eq!(server.handles(), vec![0]);
    assert_eq!(server.handle_of(11), Some(0));
}

#[test]
fn disconnect_removes_avatar_and_roster_entry() {
    let mut server = Server::new();
    server.connect(11);
    server.connect(12);
    let out = server.disconnect(11);
    assert_eq!(out, vec![Outgoing::All { message: ServerMessages::PlayerRemove { id: 11 } }]);
    assert_eq!(server.handle_of(11), None);
    assert_eq!(server.player(0), None);
    assert_eq!(server.handles(), vec![1]);
    let frame = server.server_network_sync().unwrap();
    assert_eq!(frame.entities.entities, vec![1]);
}

#[test]
fn disconnect_of_a_stranger_is_still_announced() {
    let mut server = Server::new();
    server.connect(11);
    let out = server.disconnect(99);
    assert_eq!(out, vec![Outgoing::All { message: ServerMessages::PlayerRemove { id: 99 } }]);
    assert_eq!(server.handles(), vec![0]);
}

#[test]
fn handles_are_not_reused_after_reconnect() {
    let mut server = Server::new();
    server.connect(11);
    server.disconnect(11);
    let out = server.connect(11);
    assert_eq!(out, vec![Outgoing::All { message: created(1, 11) }]);
    assert_eq!(server.handle_of(11), Some(1));
    assert_eq!(server.player(0), None);
}

#[test]
fn last_input_wins() {
    let mut server = Server::new();
    server.connect(11);
    server.stage_input(11, forward_input(Some(1)));
    server.stage_input(11, forward_input(Some(2)));
    assert_eq!(server.player(0).unwrap().input, forward_input(Some(2)));
    server.stage_input(12, forward_input(Some(9)));
    assert_eq!(server.player(0).unwrap().input, forward_input(Some(2)));
    assert_eq!(server.handles(), vec![0]);
}

#[test]
fn commands_leave_the_server_unchanged() {
    let mut server = Server::new();
    server.connect(11);
    let before = server.player(0);
    let attack = PlayerCommand::BasicAttack { cast_at: v3(1.0, 0.0, 1.0) };
    server.apply_command(11, attack);
    server.apply_command(11, attack);
    assert_eq!(server.player(0), before);
    assert_eq!(server.tick(), 0);
    assert_eq!(server.handles(), vec![0]);
}

#[test]
fn update_handles_events_before_inboxes() {
    let mut server = Server::new();
    let events = vec![
        ServerEvent::ClientConnected { client_id: 11 },
        ServerEvent::ClientConnected { client_id: 12 },
        ServerEvent::ClientDisconnected { client_id: 11 },
    ];
    let inboxes = vec![
        Inbox { client_id: 11, commands: vec![], inputs: vec![Some(forward_input(Some(0)))] },
        Inbox {
            client_id: 12,
            commands: vec![Some(PlayerCommand::BasicAttack { cast_at: v3(0.0, 0.0, 0.0) }), None],
            inputs: vec![
                Some(forward_input(Some(1))),
                None,
                Some(forward_input(Some(2))),
                Some(forward_input(Some(3))),
                None,
            ],
        },
    ];
    let out = server.server_update_system(&events, &inboxes);
    assert_eq!(
        out,
        vec![
            Outgoing::All { message: created(0, 11) },
            Outgoing::To { client: 12, message: created(0, 11) },
            Outgoing::All { message: created(1, 12) },
            Outgoing::All { message: ServerMessages::PlayerRemove { id: 11 } },
        ]
    );
    assert_eq!(server.player(0), None);
    assert_eq!(server.player(1).unwrap().input, forward_input(Some(3)));
}

#[test]
fn frames_carry_increasing_ticks_and_live_rows() {
    let mut server = Server::new();
    server.connect(11);
    server.connect(12);
    server.set_motion(1, v3(4.0, 0.51, 4.0), identity(), v3(3.0, 0.0, 0.0));
    let mut last: Option<u32> = None;
    for t in 0..60u32 {
        let frame = server.server_network_sync().unwrap();
        assert_eq!(frame.tick, t);
        if let Some(prev) = last {
            assert!(frame.tick > prev);
        }
        last = Some(frame.tick);
        assert!(frame.entities.is_aligned());
        assert_eq!(frame.entities.len(), 2);
        assert_eq!(
            frame.entities.get(1),
            EntityRow {
                entity: 1,
                translation: v3(4.0, 0.51, 4.0),
                rotation: identity(),
                velocity: v3(3.0, 0.0, 0.0),
                grounded: true,
            }
        );
    }
    assert_eq!(server.tick(), 60);
}

#[test]
fn tick_counter_stops_at_its_end() {
    let mut server = Server::starting_at(u32::MAX - 1);
    assert_eq!(server.server_network_sync().map(|f| f.tick), Some(u32::MAX - 1));
    assert_eq!(server.server_network_sync(), None);
    assert_eq!(server.tick(), u32::MAX);
}

#[test]
fn jump_leaves_the_ground_once() {
    let mut server = Server::new();
    server.connect(11);
    let mut input = forward_input(None);
    input.jump = true;
    server.stage_input(11, input);
    assert_eq!(
        server.resolve_jump(0, true),
        Some(JumpStage { grounded: false, jump: false, vertical: Vertical::Launch })
    );
    let e = server.player(0).unwrap();
    assert!(!e.grounded);
    assert!(!e.input.jump);
    assert_eq!(
        server.resolve_jump(0, false),
        Some(JumpStage { grounded: false, jump: false, vertical: Vertical::Fall })
    );
    assert_eq!(
        server.resolve_jump(0, true),
        Some(JumpStage { grounded: true, jump: false, vertical: Vertical::Snap })
    );
    assert!(server.player(0).unwrap().grounded);
    assert_eq!(server.resolve_jump(5, true), None);
}

#[test]
fn motion_of_an_empty_slot_is_not_written() {
    let mut server = Server::new();
    server.connect(11);
    server.disconnect(11);
    assert!(!server.set_motion(0, v3(1.0, 1.0, 1.0), identity(), v3(0.0, 0.0, 0.0)));
    assert!(!server.set_motion(7, v3(1.0, 1.0, 1.0), identity(), v3(0.0, 0.0, 0.0)));
    assert_eq!(server.player(0), None);
}

#[test]
fn connect_sync_disconnect_cycle() {
    let mut server = Server::new();
    let a = 42u64;
    let out = server.server_update_system(&vec![ServerEvent::ClientConnected { client_id: a }], &vec![]);
    assert_eq!(out, vec![Outgoing::All { message: created(0, a) }]);

    let mut client = isotokyo::client::Client::new(a);
    for o in &out {
        if let Outgoing::All { message } = o {
            client.apply_message(*message);
        }
    }
    assert_eq!(client.entity(0).map(|e| e.is_local), Some(true));

    let mut ticks = Vec::new();
    for t in 0..60u32 {
        let inbox = Inbox {
            client_id: a,
            commands: vec![],
            inputs: vec![Some(forward_input(client.most_recent_tick().0))],
        };
        let sent = server.server_update_system(&vec![], &vec![inbox]);
        assert!(sent.is_empty());
        assert_eq!(server.player(0).unwrap().input.most_recent_tick, if t == 0 { None } else { Some(t - 1) });
        let frame = server.server_network_sync().unwrap();
        ticks.push(frame.tick);
        assert_eq!(client.apply_frame(&frame), isotokyo::client::FrameOutcome::Applied);
    }
    assert!(ticks.windows(2).all(|w| w[0] < w[1]));
    assert_eq!(client.most_recent_tick().0, Some(59));

    let out = server.server_update_system(&vec![ServerEvent::ClientDisconnected { client_id: a }], &vec![]);
    assert_eq!(out, vec![Outgoing::All { message: ServerMessages::PlayerRemove { id: a } }]);
    assert_eq!(server.handle_of(a), None);
    assert!(server.handles().is_empty());
    for o in &out {
        if let Outgoing::All { message } = o {
            client.apply_message(*message);
        }
    }
    assert_eq!(client.player_info(a), None);
}

#[test]
fn undecodable_input_does_not_disturb_the_tick() {
    let mut server = Server::new();
    server.connect(11);
    server.stage_input(11, forward_input(Some(7)));
    let inbox = Inbox { client_id: 11, commands: vec![None], inputs: vec![None, None] };
    let out = server.server_update_system(&vec![], &vec![inbox]);
    assert!(out.is_empty());
    assert_eq!(server.player(0).unwrap().input, forward_input(Some(7)));
}

#[test]
fn roster_can_be_read() {
    let mut server = Server::new();
    server.connect(11);
    server.connect(12);
    assert_eq!(server.lobby().get(11), Some(0));
    assert_eq!(server.lobby().get(12), Some(1));
    assert_eq!(server.lobby().get(0), None);
    server.disconnect(11);
    assert_eq!(server.lobby().get(11), None);
    assert_eq!(server.lobby().get(12), Some(1));
}
