use isotokyo::client::{Client, ClientEntity, FrameOutcome, PlayerInfo, SpawnPlayer, Synced};
use isotokyo::networking::{
    EntityRow, MostRecentTick, NetworkFrame, NetworkedEntities, PlayerInput, Quat, ServerMessages,
    Vec3,
};

fn v3(x: f32, y: f32, z: f32) -> Vec3 {
    Vec3 { x: x.to_bits(), y: y.to_bits(), z: z.to_bits() }
}

fn quat(x: f32, y: f32, z: f32, w: f32) -> Quat {
    Quat { x: x.to_bits(), y: y.to_bits(), z: z.to_bits(), w: w.to_bits() }
}

fn row(entity: u64, x: f32) -> EntityRow {
    EntityRow {
        entity,
        translation: v3(x, 0.51, -x),
        rotation: quat(0.0, 1.0, 0.0, 0.0),
        velocity: v3(0.25, 0.0, x),
        grounded: false,
    }
}

fn frame(tick: u32, rows: &[EntityRow]) -> NetworkFrame {
    let mut entities = NetworkedEntities::new();
    for r in rows {
        entities.push(*r);
    }
    NetworkFrame { tick, entities }
}

fn create(id: u64, entity: u64) -> ServerMessages {
    ServerMessages::PlayerCreate { entity, id, translation: v3(0.0, 0.0, 0.0) }
}

#[test]
fn only_newer_ticks_are_applied() {
    let mut client = Client::new(9);
    let ticks = [5u32, 3, 7, 6, 7];
    let mut applied = Vec::new();
    for t in ticks {
        if client.apply_frame(&frame(t, &[])) == FrameOutcome::Applied {
            applied.push(t);
        }
    }
    assert_eq!(applied, vec![5, 7]);
    assert_eq!(client.most_recent_tick(), MostRecentTick(Some(7)));
}

#[test]
fn stale_frame_is_dropped_whole() {
    let mut client = Client::new(9);
    assert_eq!(client.apply_message(create(1, 100)), Synced::Spawned { client_entity: 0, is_local: false });
    assert_eq!(client.apply_frame(&frame(5, &[row(100, 1.0)])), FrameOutcome::Applied);
    let before = client.entity(0);
    assert_eq!(client.apply_frame(&frame(5, &[row(100, 2.0)])), FrameOutcome::Stale);
    assert_eq!(client.apply_frame(&frame(4, &[row(100, 3.0)])), FrameOutcome::Stale);
    assert_eq!(client.entity(0), before);
    assert_eq!(client.most_recent_tick().0, Some(5));
}

#[test]
fn first_frame_is_accepted_at_tick_zero() {
    let mut client = Client::new(9);
    assert_eq!(client.apply_frame(&frame(0, &[])), FrameOutcome::Applied);
    assert_eq!(client.most_recent_tick().0, Some(0));
    assert_eq!(client.apply_frame(&frame(0, &[])), FrameOutcome::Stale);
}

#[test]
fn mapping_lifecycle() {
    let mut client = Client::new(9);
    let synced = client.apply_message(create(1, 100));
    assert_eq!(synced, Synced::Spawned { client_entity: 0, is_local: false });
    assert_eq!(
        client.player_info(1),
        Some(PlayerInfo { client_entity: 0, server_entity: 100 })
    );
    assert_eq!(
        client.entity(0),
        Some(ClientEntity {
            id: 1,
            server_entity: 100,
            is_local: false,
            translation: v3(0.0, 0.0, 0.0),
            rotation: quat(0.0, 0.0, 0.0, 1.0),
            velocity: v3(0.0, 0.0, 0.0),
            grounded: true,
            input: PlayerInput::default(),
        })
    );

    let r = row(100, 2.0);
    assert_eq!(client.apply_frame(&frame(1, &[r])), FrameOutcome::Applied);
    let e = client.entity(0).unwrap();
    assert_eq!(e.translation, r.translation);
    assert_eq!(e.rotation, r.rotation);
    assert_eq!(e.velocity, r.velocity);
    assert_eq!(e.grounded, r.grounded);

    let gone = client.apply_message(ServerMessages::PlayerRemove { id: 1 });
    assert_eq!(
        gone,
        Synced::Despawned { info: PlayerInfo { client_entity: 0, server_entity: 100 } }
    );
    assert_eq!(client.player_info(1), None);
    assert_eq!(client.entity(0), None);

    assert_eq!(client.apply_frame(&frame(2, &[row(100, 4.0)])), FrameOutcome::Applied);
    assert_eq!(client.entity(0), None);
    assert_eq!(client.slot_count(), 1);
    assert_eq!(client.most_recent_tick().0, Some(2));
}

#[test]
fn unmapped_rows_are_skipped_and_the_rest_applied() {
    let mut client = Client::new(9);
    client.apply_message(create(1, 100));
    client.apply_message(create(2, 200));
    let f = frame(3, &[row(999, 9.0), row(200, 2.0), row(100, 1.0)]);
    assert_eq!(client.apply_frame(&f), FrameOutcome::Applied);
    assert_eq!(client.entity(0).unwrap().translation, row(100, 1.0).translation);
    assert_eq!(client.entity(1).unwrap().translation, row(200, 2.0).translation);
    assert_eq!(client.slot_count(), 2);
}

#[test]
fn later_row_for_the_same_handle_wins() {
    let mut client = Client::new(9);
    client.apply_message(create(1, 100));
    let f = frame(3, &[row(100, 1.0), row(100, 5.0)]);
    assert_eq!(client.apply_frame(&f), FrameOutcome::Applied);
    assert_eq!(client.entity(0).unwrap().velocity, row(100, 5.0).velocity);
}

#[test]
fn own_avatar_keeps_predicted_position() {
    let mut client = Client::new(9);
    let synced = client.apply_message(ServerMessages::PlayerCreate {
        entity: 7,
        id: 9,
        translation: v3(1.0, 2.0, 3.0),
    });
    assert_eq!(synced, Synced::Spawned { client_entity: 0, is_local: true });
    let r = row(7, 8.0);
    assert_eq!(client.apply_frame(&frame(1, &[r])), FrameOutcome::Applied);
    let e = client.entity(0).unwrap();
    assert!(e.is_local);
    assert_eq!(e.translation, v3(1.0, 2.0, 3.0));
    assert_eq!(e.rotation, quat(0.0, 0.0, 0.0, 1.0));
    assert_eq!(e.velocity, r.velocity);
    assert_eq!(e.grounded, false);
}

#[test]
fn misaligned_frame_is_dropped() {
    let mut client = Client::new(9);
    client.apply_message(create(1, 100));
    let mut f = frame(4, &[row(100, 1.0)]);
    f.entities.groundeds.push(true);
    assert_eq!(client.apply_frame(&f), FrameOutcome::Malformed);
    assert_eq!(client.most_recent_tick().0, None);
    assert_eq!(client.entity(0).unwrap().translation, v3(0.0, 0.0, 0.0));
}

#[test]
fn repeated_creation_is_ignored() {
    let mut client = Client::new(9);
    assert_eq!(client.apply_message(create(1, 100)), Synced::Spawned { client_entity: 0, is_local: false });
    assert_eq!(client.apply_message(create(1, 101)), Synced::Ignored);
    assert_eq!(client.apply_message(create(2, 100)), Synced::Ignored);
    assert_eq!(client.slot_count(), 1);
    assert_eq!(client.player_info(2), None);
    assert_eq!(
        client.player_info(1),
        Some(PlayerInfo { client_entity: 0, server_entity: 100 })
    );
}

#[test]
fn removing_an_unknown_player_is_ignored() {
    let mut client = Client::new(9);
    assert_eq!(client.apply_message(ServerMessages::PlayerRemove { id: 5 }), Synced::Ignored);
    assert_eq!(client.remove_player(5), None);
}

#[test]
fn local_handles_are_not_reused() {
    let mut client = Client::new(9);
    client.apply_message(create(1, 100));
    client.apply_message(ServerMessages::PlayerRemove { id: 1 });
    assert_eq!(client.apply_message(create(1, 100)), Synced::Spawned { client_entity: 1, is_local: false });
    assert_eq!(client.entity(0), None);
    assert_eq!(
        client.player_info(1),
        Some(PlayerInfo { client_entity: 1, server_entity: 100 })
    );
}

#[test]
fn spawn_event_flags_the_own_player() {
    let client = Client::new(9);
    assert_eq!(
        client.spawn_event(create(9, 3)),
        Some(SpawnPlayer { id: 9, entity: 3, position: v3(0.0, 0.0, 0.0), is_local: true })
    );
    assert_eq!(
        client.spawn_event(create(8, 4)),
        Some(SpawnPlayer { id: 8, entity: 4, position: v3(0.0, 0.0, 0.0), is_local: false })
    );
    assert_eq!(client.spawn_event(ServerMessages::PlayerRemove { id: 9 }), None);
}

#[test]
fn drain_applies_messages_before_frames() {
    let mut client = Client::new(9);
    let messages = vec![
        Some(create(1, 100)),
        None,
        Some(create(2, 200)),
        Some(ServerMessages::PlayerRemove { id: 2 }),
    ];
    let frames = vec![
        Some(frame(2, &[row(100, 1.0), row(200, 2.0)])),
        Some(frame(1, &[row(100, 6.0)])),
        None,
        Some(frame(3, &[row(100, 3.0)])),
    ];
    client.client_sync_players(&messages, &frames);
    assert_eq!(client.most_recent_tick().0, Some(3));
    assert_eq!(client.entity(0).unwrap().translation, row(100, 3.0).translation);
    assert_eq!(client.entity(1), None);
}

#[test]
fn input_is_sent_only_with_an_own_avatar() {
    let mut client = Client::new(9);
    assert_eq!(client.client_send_input(), None);
    client.apply_message(create(1, 100));
    assert_eq!(client.client_send_input(), None);
    client.apply_message(create(9, 101));
    assert_eq!(client.client_send_input(), Some(PlayerInput::default()));

    let input = PlayerInput {
        forward: 1.0f32.to_bits(),
        right: 0,
        jump: true,
        aim_ray: isotokyo::networking::Ray { origin: v3(5.0, 5.0, 5.0), direction: v3(0.0, -1.0, 0.0) },
        most_recent_tick: Some(4),
    };
    assert!(client.predict_local(input, v3(1.0, 0.5, 1.0), quat(0.0, 0.0, 0.0, 1.0), v3(3.0, 0.0, 0.0), true));
    assert_eq!(client.client_send_input(), Some(input));
    let e = client.entity(1).unwrap();
    assert_eq!(e.translation, v3(1.0, 0.5, 1.0));
    assert_eq!(e.velocity, v3(3.0, 0.0, 0.0));
    assert_eq!(client.entity(0).unwrap().translation, v3(0.0, 0.0, 0.0));
}

#[test]
fn prediction_without_an_avatar_writes_nothing() {
    let mut client = Client::new(9);
    client.apply_message(create(1, 100));
    let before = client.entity(0);
    assert!(!client.predict_local(PlayerInput::default(), v3(1.0, 1.0, 1.0), quat(0.0, 0.0, 0.0, 1.0), v3(1.0, 1.0, 1.0), false));
    assert_eq!(client.entity(0), before);
}

#[test]
fn tick_acceptance_is_strict() {
    let mut recent = MostRecentTick(None);
    assert!(recent.accept(5));
    assert!(!recent.accept(5));
    assert!(!recent.accept(4));
    assert!(recent.accept(6));
    assert_eq!(recent, MostRecentTick(Some(6)));
    let mut top = MostRecentTick(Some(u32::MAX));
    assert!(!top.accept(u32::MAX));
    assert_eq!(top.0, Some(u32::MAX));
}

#[test]
fn undecodable_traffic_is_dropped() {
    let mut client = Client::new(9);
    client.client_sync_players(&vec![None, None], &vec![None]);
    assert_eq!(client.slot_count(), 0);
    assert_eq!(client.most_recent_tick(), MostRecentTick(None));
    assert_eq!(client.client_id(), 9);
}

#[test]
fn misflagged_spawn_is_turned_down() {
    let mut client = Client::new(9);
    let theirs = SpawnPlayer { id: 1, entity: 100, position: v3(0.0, 0.0, 0.0), is_local: true };
    assert_eq!(client.client_spawn_players(theirs), None);
    let ours = SpawnPlayer { id: 9, entity: 101, position: v3(0.0, 0.0, 0.0), is_local: false };
    assert_eq!(client.client_spawn_players(ours), None);
    assert_eq!(client.slot_count(), 0);
    assert_eq!(client.player_info(1), None);
    let fixed = SpawnPlayer { is_local: false, ..theirs };
    assert_eq!(client.client_spawn_players(fixed), Some(0));
    assert_eq!(client.client_spawn_players(fixed), None);
    assert_eq!(client.entity(0).map(|e| e.is_local), Some(false));
}

#[test]
fn lobby_and_mapping_can_be_read() {
    let mut client = Client::new(9);
    client.apply_message(create(1, 100));
    client.apply_message(create(2, 200));
    assert_eq!(client.lobby().get(1), Some(100));
    assert_eq!(client.lobby().get(2), Some(200));
    assert_eq!(client.lobby().get(3), None);
    assert_eq!(client.network_mapping().get(100), Some(0));
    assert_eq!(client.network_mapping().get(200), Some(1));
    assert_eq!(client.network_mapping().get(1), None);
    client.apply_message(ServerMessages::PlayerRemove { id: 1 });
    assert_eq!(client.lobby().get(1), None);
    assert_eq!(client.network_mapping().get(100), None);
    assert_eq!(client.network_mapping().get(200), Some(1));
}
