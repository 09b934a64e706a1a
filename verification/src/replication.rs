//! What server and client promise each other: laws that span both sides.

use crate::client::{
    apply_rows, each_mapped_row_lands, overwritten, spawn_request, spawned, ClientModel,
    PlayerInfo, SpawnPlayer,
};
use crate::networking::ServerMessages;
use crate::player::{spawn_point, PlayerEntity};
use crate::server::{
    creation, every_live_avatar_is_listed, frame_names_each_avatar_once,
    frame_rows, frame_rows_follow_live_handles, live_handles, removal, Outgoing, ServerModel,
};
use vstd::prelude::*;

verus! {

/// After a frame of the server was applied, a client holds for every live
/// avatar of the server whose handle it has mapped what the server's row
/// for that avatar was written over it: for an avatar of another player the
/// server's translation, rotation, velocity and grounded flag.
pub proof fn mapped_avatar_follows_server(server: ServerModel, client: ClientModel, handle: u64)
    requires
        client.wf(),
        server.slots.len() <= u64::MAX,
        server.slot(handle) is Some,
        client.mapping.contains_key(handle),
    ensures
        apply_rows(client.slots, client.mapping, frame_rows(server.slots))[client.mapping[handle] as int]
            == Some(
            overwritten(
                client.slots[client.mapping[handle] as int]->0,
                server.slot(handle)->0.spec_row(handle),
            ),
        ),
{
    let rows = frame_rows(server.slots);
    every_live_avatar_is_listed(server.slots, handle as int);
    let i = choose|i: int|
        0 <= i < live_handles(server.slots).len() && #[trigger] live_handles(server.slots)[i]
            == handle;
    frame_rows_follow_live_handles(server.slots);
    frame_names_each_avatar_once(server.slots);
    assert(rows[i] == server.slot(handle)->0.spec_row(handle));
    each_mapped_row_lands(client, rows, i);
}

/// A connection's whole life as a client sees it. When a connection that
/// was not active becomes active, the last message sent announces its new
/// avatar to everyone; a client that did not know the player knows it
/// afterwards, under the server's handle, and flags the avatar as its own
/// exactly when the id is its own. When the connection is lost, the roster
/// no longer holds it, its removal is announced, and the client forgets the
/// player and the handle.
pub proof fn connection_life_cycle(server: ServerModel, client: ClientModel, id: u64)
    requires
        server.wf(),
        client.wf(),
        server.slots.len() < u64::MAX,
        client.slots.len() < u64::MAX,
        !server.active(id),
        !client.lobby.contains_key(id),
        !client.mapping.contains_key(server.slots.len() as u64),
    ensures
        ({
            let handle = server.slots.len() as u64;
            let joined = server.connect(id);
            let announced = ServerMessages::PlayerCreate {
                entity: handle,
                id,
                translation: spawn_point(),
            };
            let knowing = client.message(announced);
            let left = joined.disconnect(id);
            let forgetting = knowing.message(ServerMessages::PlayerRemove { id });
            &&& server.connect_out(id).last() == (Outgoing::All { message: announced })
            &&& joined.avatar(id) == Some(PlayerEntity::spec_spawn(id))
            &&& knowing.wf()
            &&& knowing.info(id) == Some(
                PlayerInfo { client_entity: client.slots.len() as u64, server_entity: handle },
            )
            &&& knowing.slot(client.slots.len() as u64) == Some(
                spawned(
                    SpawnPlayer {
                        id,
                        entity: handle,
                        position: spawn_point(),
                        is_local: id == client.client_id,
                    },
                ),
            )
            &&& !left.active(id)
            &&& left.slot(handle) is None
            &&& joined.event_out(crate::server::ServerEvent::ClientDisconnected { client_id: id })
                == seq![removal(id)]
            &&& forgetting.wf()
            &&& forgetting.info(id) is None
            &&& !forgetting.mapping.contains_key(handle)
            &&& forgetting.slot(client.slots.len() as u64) is None
        }),
{
    let handle = server.slots.len() as u64;
    let announced = ServerMessages::PlayerCreate { entity: handle, id, translation: spawn_point() };
    let spawn = spawn_request(client.client_id, announced)->0;
    assert(creation(handle, id) == (Outgoing::All { message: announced }));
    crate::client::lemma_spawn_keeps_wf(client, spawn);
    let knowing = client.message(announced);
    assert(knowing == client.spawn(spawn));
    crate::client::lemma_remove_keeps_wf(knowing, id);
    assert(knowing.lobby.contains_key(id));
    assert(knowing.mapping.contains_key(handle));
}

} // verus!
