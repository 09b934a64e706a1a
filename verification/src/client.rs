//! The client side: which avatars the client knows, under which local
//! handles, and how lifecycle messages and frames change them.
//!
//! Local avatars live in slots that are never reused; an avatar's local
//! handle is the index of its slot. The client's own avatar keeps the
//! position and rotation that the client predicts for it; the server's word
//! is taken for its velocity and grounded flag, and for everything about the
//! other avatars.

use crate::networking::{
    decoded, distinct_handles, EntityRow, MostRecentTick, NetworkFrame, PlayerInput, Quat, ServerMessages, Vec3,
};
use crate::table::{table_get, table_insert, table_remove, HandleTable};
use vstd::prelude::*;

verus! {

/// The server handle of every known player, by client id.
pub struct ClientLobby {
    players: HandleTable,
}

/// The local handle of every known avatar, by server handle.
pub struct NetworkMapping(HandleTable);

impl View for ClientLobby {
    type V = Map<u64, u64>;

    closed spec fn view(&self) -> Map<u64, u64> {
        self.players@
    }
}

impl ClientLobby {
    /// The server handle of the player `id`, if it is known.
    pub fn get(&self, id: u64) -> (server_entity: Option<u64>)
        ensures
            server_entity == (if self@.contains_key(id) { Some(self@[id]) } else { None::<u64> }),
    {
        table_get(&self.players, id)
    }
}

impl View for NetworkMapping {
    type V = Map<u64, u64>;

    closed spec fn view(&self) -> Map<u64, u64> {
        self.0@
    }
}

impl NetworkMapping {
    /// The local handle that a server handle is mapped to, if any.
    pub fn get(&self, server_entity: u64) -> (client_entity: Option<u64>)
        ensures
            client_entity == (if self@.contains_key(server_entity) {
                Some(self@[server_entity])
            } else {
                None::<u64>
            }),
    {
        table_get(&self.0, server_entity)
    }
}

/// The two handles of one known player.
#[derive(Clone, Copy, Debug, PartialEq, Eq, Structural)]
pub struct PlayerInfo {
    pub client_entity: u64,
    pub server_entity: u64,
}

/// A request to give a player an avatar on this client.
#[derive(Clone, Copy, Debug, PartialEq, Eq, Structural)]
pub struct SpawnPlayer {
    pub id: u64,
    pub entity: u64,
    pub position: Vec3,
    pub is_local: bool,
}

/// An avatar as a client holds it.
#[derive(Clone, Copy, Debug, PartialEq, Eq)]
pub struct ClientEntity {
    pub id: u64,
    pub server_entity: u64,
    /// Whether this client steers it.
    pub is_local: bool,
    pub translation: Vec3,
    pub rotation: Quat,
    pub velocity: Vec3,
    pub grounded: bool,
    /// The input sampled for it; read only where `is_local`.
    pub input: PlayerInput,
}

/// What a lifecycle message did.
#[derive(Clone, Copy, Debug, PartialEq, Eq, Structural)]
pub enum Synced {
    /// An avatar appeared under this local handle.
    Spawned { client_entity: u64, is_local: bool },
    /// The avatar with these handles is gone.
    Despawned { info: PlayerInfo },
    /// Nothing changed.
    Ignored,
}

/// What became of a frame.
#[derive(Clone, Copy, Debug, PartialEq, Eq, Structural)]
pub enum FrameOutcome {
    /// Its tick was newer than any before: its rows were applied.
    Applied,
    /// Its tick was not newer: it was dropped whole.
    Stale,
    /// Its columns differ in length: it was dropped whole.
    Malformed,
}

/// A client's state. Its fields are private, so that lobby, mapping and
/// slots can only change together.
pub struct Client {
    /// The id of this client's own connection.
    client_id: u64,
    lobby: ClientLobby,
    network_mapping: NetworkMapping,
    most_recent_tick: MostRecentTick,
    entities: Vec<Option<ClientEntity>>,
}

/// A client's state as mathematics.
pub struct ClientModel {
    pub client_id: u64,
    pub lobby: Map<u64, u64>,
    pub mapping: Map<u64, u64>,
    pub tick: Option<u32>,
    pub slots: Seq<Option<ClientEntity>>,
}

impl View for Client {
    type V = ClientModel;

    closed spec fn view(&self) -> ClientModel {
        ClientModel {
            client_id: self.client_id,
            lobby: self.lobby.players@,
            mapping: self.network_mapping.0@,
            tick: self.most_recent_tick.0,
            slots: self.entities@,
        }
    }
}

/// A frame is accepted exactly when its tick is strictly newer than the
/// newest accepted so far, or when none has been accepted yet.
pub open spec fn accepts(recent: Option<u32>, tick: u32) -> bool {
    match recent {
        None => true,
        Some(t) => t < tick,
    }
}

/// The spawn request that a creation message stands for.
pub open spec fn spawn_request(client_id: u64, message: ServerMessages) -> Option<SpawnPlayer> {
    match message {
        ServerMessages::PlayerCreate { entity, id, translation } => Some(
            SpawnPlayer { id, entity, position: translation, is_local: client_id == id },
        ),
        ServerMessages::PlayerRemove { .. } => None,
    }
}

/// The avatar that a spawn request creates: where the request says, unrotated,
/// at rest, on the ground, with neutral input.
pub open spec fn spawned(spawn: SpawnPlayer) -> ClientEntity {
    ClientEntity {
        id: spawn.id,
        server_entity: spawn.entity,
        is_local: spawn.is_local,
        translation: spawn.position,
        rotation: Quat::spec_identity(),
        velocity: Vec3::spec_zero(),
        grounded: true,
        input: PlayerInput::spec_neutral(),
    }
}

/// An avatar after a row was written over it. The client's own avatar
/// keeps its translation and rotation.
pub open spec fn overwritten(e: ClientEntity, row: EntityRow) -> ClientEntity {
    if e.is_local {
        ClientEntity { velocity: row.velocity, grounded: row.grounded, ..e }
    } else {
        ClientEntity {
            translation: row.translation,
            rotation: row.rotation,
            velocity: row.velocity,
            grounded: row.grounded,
            ..e
        }
    }
}

/// The slots after one row: the avatar that the row's handle is mapped to is
/// overwritten; a row whose handle is not mapped changes nothing.
pub open spec fn apply_row(
    slots: Seq<Option<ClientEntity>>,
    mapping: Map<u64, u64>,
    row: EntityRow,
) -> Seq<Option<ClientEntity>> {
    if mapping.contains_key(row.entity) && mapping[row.entity] < slots.len()
        && slots[mapping[row.entity] as int] is Some {
        slots.update(
            mapping[row.entity] as int,
            Some(overwritten(slots[mapping[row.entity] as int]->0, row)),
        )
    } else {
        slots
    }
}

/// The slots after a run of rows, applied first to last.
pub open spec fn apply_rows(
    slots: Seq<Option<ClientEntity>>,
    mapping: Map<u64, u64>,
    rows: Seq<EntityRow>,
) -> Seq<Option<ClientEntity>>
    decreases rows.len(),
{
    if rows.len() == 0 {
        slots
    } else {
        apply_row(apply_rows(slots, mapping, rows.drop_last()), mapping, rows.last())
    }
}

impl ClientModel {
    /// Lobby, mapping and slots agree: the three describe the same set of
    /// known players, one avatar each, and an avatar is flagged local
    /// exactly when it carries this client's id.
    pub open spec fn wf(&self) -> bool {
        &&& forall|id: u64| #[trigger]
            self.lobby.contains_key(id) ==> {
                &&& self.mapping.contains_key(self.lobby[id])
                &&& self.mapping[self.lobby[id]] < self.slots.len()
                &&& self.slots[self.mapping[self.lobby[id]] as int] is Some
                &&& self.slots[self.mapping[self.lobby[id]] as int]->0.id == id
            }
        &&& forall|s: u64| #[trigger]
            self.mapping.contains_key(s) ==> {
                &&& self.mapping[s] < self.slots.len()
                &&& self.slots[self.mapping[s] as int] is Some
                &&& self.slots[self.mapping[s] as int]->0.server_entity == s
            }
        &&& forall|l: int|
            0 <= l < self.slots.len() && (#[trigger] self.slots[l]) is Some ==> {
                &&& self.lobby.contains_key(self.slots[l]->0.id)
                &&& self.lobby[self.slots[l]->0.id] == self.slots[l]->0.server_entity
                &&& self.mapping.contains_key(self.slots[l]->0.server_entity)
                &&& self.mapping[self.slots[l]->0.server_entity] == l
                &&& self.slots[l]->0.is_local == (self.slots[l]->0.id == self.client_id)
            }
    }

    /// The state of a client that knows nobody yet.
    pub open spec fn fresh(client_id: u64) -> ClientModel {
        ClientModel {
            client_id,
            lobby: Map::empty(),
            mapping: Map::empty(),
            tick: None,
            slots: Seq::empty(),
        }
    }

    /// Whether a spawn request would collide with what is already known.
    pub open spec fn knows(&self, spawn: SpawnPlayer) -> bool {
        self.lobby.contains_key(spawn.id) || self.mapping.contains_key(spawn.entity)
    }

    /// Whether a spawn request is turned down: one that collides with what
    /// is already known, or that flags as local a player with another id
    /// than this client's, or the other way round.
    pub open spec fn refuses(&self, spawn: SpawnPlayer) -> bool {
        self.knows(spawn) || spawn.is_local != (spawn.id == self.client_id)
    }

    /// The state after a spawn request: a new avatar in a new slot, entered
    /// in lobby and mapping. A request that is turned down changes nothing.
    pub open spec fn spawn(self, spawn: SpawnPlayer) -> ClientModel {
        if self.refuses(spawn) {
            self
        } else {
            ClientModel {
                lobby: self.lobby.insert(spawn.id, spawn.entity),
                mapping: self.mapping.insert(spawn.entity, self.slots.len() as u64),
                slots: self.slots.push(Some(spawned(spawn))),
                ..self
            }
        }
    }

    /// The state after a removal: the player's lobby entry, mapping entry
    /// and avatar are gone. Removing an unknown player changes nothing.
    pub open spec fn remove(self, id: u64) -> ClientModel {
        if !self.lobby.contains_key(id) {
            self
        } else if !self.mapping.contains_key(self.lobby[id]) {
            ClientModel { lobby: self.lobby.remove(id), ..self }
        } else {
            let server_entity = self.lobby[id];
            let local = self.mapping[server_entity];
            ClientModel {
                lobby: self.lobby.remove(id),
                mapping: self.mapping.remove(server_entity),
                slots: if local < self.slots.len() {
                    self.slots.update(local as int, None)
                } else {
                    self.slots
                },
                ..self
            }
        }
    }

    /// The state after a lifecycle message.
    pub open spec fn message(self, message: ServerMessages) -> ClientModel {
        match message {
            ServerMessages::PlayerCreate { .. } => self.spawn(
                spawn_request(self.client_id, message)->0,
            ),
            ServerMessages::PlayerRemove { id } => self.remove(id),
        }
    }

    /// What becomes of a frame in this state.
    pub open spec fn judge(self, frame: NetworkFrame) -> FrameOutcome {
        if !frame.entities.aligned() {
            FrameOutcome::Malformed
        } else if !accepts(self.tick, frame.tick) {
            FrameOutcome::Stale
        } else {
            FrameOutcome::Applied
        }
    }

    /// The state after a frame: an accepted frame's tick becomes the newest
    /// seen and its rows are written over the mapped avatars; any other
    /// frame changes nothing.
    pub open spec fn frame(self, frame: NetworkFrame) -> ClientModel {
        if self.judge(frame) == FrameOutcome::Applied {
            ClientModel {
                tick: Some(frame.tick),
                slots: apply_rows(self.slots, self.mapping, frame.entities.rows()),
                ..self
            }
        } else {
            self
        }
    }

    /// The state after a run of lifecycle messages, first to last.
    pub open spec fn messages(self, messages: Seq<ServerMessages>) -> ClientModel
        decreases messages.len(),
    {
        if messages.len() == 0 {
            self
        } else {
            self.messages(messages.drop_last()).message(messages.last())
        }
    }

    /// The state after a run of frames, first to last.
    pub open spec fn frames(self, frames: Seq<NetworkFrame>) -> ClientModel
        decreases frames.len(),
    {
        if frames.len() == 0 {
            self
        } else {
            self.frames(frames.drop_last()).frame(frames.last())
        }
    }

    /// The handles of a known player.
    pub open spec fn info(self, id: u64) -> Option<PlayerInfo> {
        if self.lobby.contains_key(id) && self.mapping.contains_key(self.lobby[id]) {
            Some(
                PlayerInfo {
                    client_entity: self.mapping[self.lobby[id]],
                    server_entity: self.lobby[id],
                },
            )
        } else {
            None
        }
    }

    /// The avatar in a local slot, if one lives there.
    pub open spec fn slot(self, client_entity: u64) -> Option<ClientEntity> {
        if client_entity < self.slots.len() {
            self.slots[client_entity as int]
        } else {
            None
        }
    }
}

impl MostRecentTick {
    /// Judges a frame's tick and, where it is accepted, remembers it.
    pub fn accept(&mut self, tick: u32) -> (accepted: bool)
        ensures
            accepted == accepts(old(self).0, tick),
            final(self).0 == (if accepted { Some(tick) } else { old(self).0 }),
    {
        let accepted = match self.0 {
            None => true,
            Some(t) => t < tick,
        };
        if accepted {
            self.0 = Some(tick);
        }
        accepted
    }
}

/// The parts of a client's state that change.
struct Parts {
    players: HandleTable,
    mapping: HandleTable,
    recent: MostRecentTick,
    entities: Vec<Option<ClientEntity>>,
}

impl Parts {
    spec fn model(&self, client_id: u64) -> ClientModel {
        ClientModel {
            client_id,
            lobby: self.players@,
            mapping: self.mapping@,
            tick: self.recent.0,
            slots: self.entities@,
        }
    }
}

impl Client {
    /// Lobby, mapping and slots of every client agree.
    #[verifier::type_invariant]
    spec fn agrees(&self) -> bool {
        self@.wf()
    }

    /// Lobby, mapping and slots of every client agree. Calling this does
    /// nothing when the program runs; it tells a proof what holds of `self`.
    pub fn agreement(&self)
        ensures
            self@.wf(),
    {
        proof {
            use_type_invariant(self);
        }
    }

    /// Takes the state apart, leaving a client that knows nobody behind.
    fn take_parts(&mut self) -> (parts: Parts)
        ensures
            parts.model(old(self)@.client_id) == old(self)@,
            final(self)@.client_id == old(self)@.client_id,
            old(self)@.wf(),
    {
        proof {
            use_type_invariant(&*self);
        }
        let mut taken = Client::new(self.client_id);
        std::mem::swap(self, &mut taken);
        let Client { client_id: _, lobby, network_mapping, most_recent_tick, entities } = taken;
        let ClientLobby { players } = lobby;
        let NetworkMapping(mapping) = network_mapping;
        Parts { players, mapping, recent: most_recent_tick, entities }
    }

    /// Puts a state together whose lobby, mapping and slots agree.
    fn put_parts(&mut self, parts: Parts)
        requires
            parts.model(old(self)@.client_id).wf(),
        ensures
            final(self)@ == parts.model(old(self)@.client_id),
    {
        let Parts { players, mapping, recent, entities } = parts;
        *self = Client {
            client_id: self.client_id,
            lobby: ClientLobby { players },
            network_mapping: NetworkMapping(mapping),
            most_recent_tick: recent,
            entities,
        };
    }

    /// A client that knows nobody yet.
    pub fn new(client_id: u64) -> (client: Client)
        ensures
            client@ == ClientModel::fresh(client_id),
            client@.wf(),
    {
        Client {
            client_id,
            lobby: ClientLobby { players: HandleTable::new() },
            network_mapping: NetworkMapping(HandleTable::new()),
            most_recent_tick: MostRecentTick(None),
            entities: Vec::new(),
        }
    }

    /// The id of this client's own connection.
    pub fn client_id(&self) -> (id: u64)
        ensures
            id == self@.client_id,
    {
        self.client_id
    }

    /// The newest tick accepted so far.
    pub fn most_recent_tick(&self) -> (recent: MostRecentTick)
        ensures
            recent.0 == self@.tick,
    {
        self.most_recent_tick
    }

    /// How many local handles have been given out so far.
    pub fn slot_count(&self) -> (n: usize)
        ensures
            n == self@.slots.len(),
    {
        self.entities.len()
    }

    /// The lobby.
    pub fn lobby(&self) -> (lobby: &ClientLobby)
        ensures
            lobby@ == self@.lobby,
    {
        &self.lobby
    }

    /// The mapping from server handles to local handles.
    pub fn network_mapping(&self) -> (mapping: &NetworkMapping)
        ensures
            mapping@ == self@.mapping,
    {
        &self.network_mapping
    }

    /// The handles of a known player.
    pub fn player_info(&self, id: u64) -> (info: Option<PlayerInfo>)
        ensures
            info == self@.info(id),
    {
        match self.lobby.get(id) {
            Some(server_entity) => match self.network_mapping.get(server_entity) {
                Some(client_entity) => Some(PlayerInfo { client_entity, server_entity }),
                None => None,
            },
            None => None,
        }
    }

    /// The avatar in a local slot, if one lives there.
    pub fn entity(&self, client_entity: u64) -> (found: Option<ClientEntity>)
        ensures
            found == self@.slot(client_entity),
    {
        if client_entity < self.entities.len() as u64 {
            self.entities[client_entity as usize]
        } else {
            None
        }
    }

    /// The spawn request that a creation message stands for on this client.
    pub fn spawn_event(&self, message: ServerMessages) -> (spawn: Option<SpawnPlayer>)
        ensures
            spawn == spawn_request(self@.client_id, message),
    {
        match message {
            ServerMessages::PlayerCreate { entity, id, translation } => Some(
                SpawnPlayer { id, entity, position: translation, is_local: self.client_id == id },
            ),
            ServerMessages::PlayerRemove { .. } => None,
        }
    }

    /// Gives a player an avatar in a new slot and enters it in lobby and
    /// mapping. The result is the new local handle; `None`, and no change,
    /// where the request is turned down: the player or the server handle is
    /// already known, or the request's flag disagrees with this client's id.
    pub fn client_spawn_players(&mut self, spawn: SpawnPlayer) -> (client_entity: Option<u64>)
        ensures
            final(self)@.wf(),
            final(self)@ == old(self)@.spawn(spawn),
            client_entity == (if old(self)@.refuses(spawn) {
                None::<u64>
            } else {
                Some(old(self)@.slots.len() as u64)
            }),
    {
        proof {
            use_type_invariant(&*self);
        }
        if spawn.is_local != (spawn.id == self.client_id) {
            return None;
        }
        if table_get(&self.lobby.players, spawn.id).is_some() {
            return None;
        }
        if table_get(&self.network_mapping.0, spawn.entity).is_some() {
            return None;
        }
        let mut parts = self.take_parts();
        let client_entity: u64 = parts.entities.len() as u64;
        let entity = ClientEntity {
            id: spawn.id,
            server_entity: spawn.entity,
            is_local: spawn.is_local,
            translation: spawn.position,
            rotation: Quat::identity(),
            velocity: Vec3::zero(),
            grounded: true,
            input: PlayerInput::neutral(),
        };
        parts.entities.push(Some(entity));
        table_insert(&mut parts.players, spawn.id, spawn.entity);
        table_insert(&mut parts.mapping, spawn.entity, client_entity);
        proof {
            lemma_spawn_keeps_wf(old(self)@, spawn);
        }
        self.put_parts(parts);
        Some(client_entity)
    }

    /// Forgets a player: its lobby entry, its mapping entry and its avatar.
    /// The result is the handles it had; `None`, and no change, where the
    /// player is not known.
    pub fn remove_player(&mut self, id: u64) -> (info: Option<PlayerInfo>)
        ensures
            final(self)@.wf(),
            final(self)@ == old(self)@.remove(id),
            info == old(self)@.info(id),
    {
        let mut parts = self.take_parts();
        proof {
            lemma_remove_keeps_wf(old(self)@, id);
        }
        let info = match table_remove(&mut parts.players, id) {
            Some(server_entity) => match table_remove(&mut parts.mapping, server_entity) {
                Some(client_entity) => {
                    if client_entity < parts.entities.len() as u64 {
                        parts.entities.set(client_entity as usize, None);
                    }
                    Some(PlayerInfo { client_entity, server_entity })
                },
                None => None,
            },
            None => None,
        };
        proof {
            let want = old(self)@.remove(id);
            let have = parts.model(old(self)@.client_id);
            assert(have.lobby =~= want.lobby);
            assert(have.mapping =~= want.mapping);
            assert(have.slots =~= want.slots);
        }
        self.put_parts(parts);
        info
    }

    /// Applies one lifecycle message.
    pub fn apply_message(&mut self, message: ServerMessages) -> (synced: Synced)
        ensures
            final(self)@.wf(),
            final(self)@ == old(self)@.message(message),
            synced == (match message {
                ServerMessages::PlayerCreate { entity, id, .. } => if old(self)@.knows(
                    spawn_request(old(self)@.client_id, message)->0,
                ) {
                    Synced::Ignored
                } else {
                    Synced::Spawned {
                        client_entity: old(self)@.slots.len() as u64,
                        is_local: id == old(self)@.client_id,
                    }
                },
                ServerMessages::PlayerRemove { id } => match old(self)@.info(id) {
                    Some(info) => Synced::Despawned { info },
                    None => Synced::Ignored,
                },
            }),
    {
        match message {
            ServerMessages::PlayerCreate { entity, id, translation } => {
                let is_local = self.client_id == id;
                let spawn = SpawnPlayer { id, entity, position: translation, is_local };
                match self.client_spawn_players(spawn) {
                    Some(client_entity) => Synced::Spawned { client_entity, is_local },
                    None => Synced::Ignored,
                }
            },
            ServerMessages::PlayerRemove { id } => match self.remove_player(id) {
                Some(info) => Synced::Despawned { info },
                None => Synced::Ignored,
            },
        }
    }

    /// Applies one frame: accepted exactly when its columns are aligned and
    /// its tick is strictly newer than every tick accepted before. An
    /// accepted frame overwrites the avatars that its rows are mapped to,
    /// row by row; rows with an unmapped handle are skipped. A frame that is
    /// not accepted changes nothing.
    pub fn apply_frame(&mut self, frame: &NetworkFrame) -> (outcome: FrameOutcome)
        ensures
            final(self)@.wf(),
            outcome == old(self)@.judge(*frame),
            final(self)@ == old(self)@.frame(*frame),
    {
        proof {
            use_type_invariant(&*self);
        }
        if !frame.entities.is_aligned() {
            return FrameOutcome::Malformed;
        }
        let mut recent = self.most_recent_tick;
        if !recent.accept(frame.tick) {
            return FrameOutcome::Stale;
        }
        let mut parts = self.take_parts();
        parts.recent = recent;
        let ghost client_id = old(self)@.client_id;
        let n = frame.entities.len();
        let mut i: usize = 0;
        while i < n
            invariant
                i <= n,
                n == frame.entities.rows().len(),
                frame.entities.aligned(),
                parts.model(client_id).wf(),
                parts.players@ == old(self)@.lobby,
                parts.mapping@ == old(self)@.mapping,
                parts.recent.0 == Some(frame.tick),
                parts.entities@ == apply_rows(
                    old(self)@.slots,
                    old(self)@.mapping,
                    frame.entities.rows().take(i as int),
                ),
            decreases n - i,
        {
            let row = frame.entities.get(i);
            proof {
                assert(frame.entities.rows().take(i + 1).drop_last() =~= frame.entities.rows().take(
                    i as int,
                ));
                lemma_row_keeps_wf(parts.model(client_id), row);
            }
            if let Some(client_entity) = table_get(&parts.mapping, row.entity) {
                if client_entity < parts.entities.len() as u64 {
                    if let Some(e) = parts.entities[client_entity as usize] {
                        let next = if e.is_local {
                            ClientEntity { velocity: row.velocity, grounded: row.grounded, ..e }
                        } else {
                            ClientEntity {
                                translation: row.translation,
                                rotation: row.rotation,
                                velocity: row.velocity,
                                grounded: row.grounded,
                                ..e
                            }
                        };
                        parts.entities.set(client_entity as usize, Some(next));
                    }
                }
            }
            i += 1;
        }
        proof {
            assert(frame.entities.rows().take(i as int) =~= frame.entities.rows());
        }
        self.put_parts(parts);
        FrameOutcome::Applied
    }

    /// Drains what arrived since the last tick: first every lifecycle
    /// message in order, then every frame in order. A message or frame that
    /// could not be decoded stands as `None` and is dropped.
    pub fn client_sync_players(
        &mut self,
        messages: &Vec<Option<ServerMessages>>,
        frames: &Vec<Option<NetworkFrame>>,
    )
        ensures
            final(self)@.wf(),
            final(self)@ == old(self)@.messages(decoded(messages@)).frames(decoded(frames@)),
    {
        proof {
            use_type_invariant(&*self);
        }
        let mut i: usize = 0;
        while i < messages.len()
            invariant
                i <= messages@.len(),
                self@.wf(),
                self@ == old(self)@.messages(decoded(messages@.take(i as int))),
            decreases messages@.len() - i,
        {
            proof {
                assert(messages@.take(i + 1).drop_last() =~= messages@.take(i as int));
                let sofar = decoded(messages@.take(i as int));
                if let Some(m) = messages@[i as int] {
                    assert(sofar.push(m).drop_last() =~= sofar);
                }
            }
            if let Some(message) = messages[i] {
                self.apply_message(message);
            }
            i += 1;
        }
        proof {
            assert(messages@.take(i as int) =~= messages@);
        }
        let ghost drained = self@;
        let mut j: usize = 0;
        while j < frames.len()
            invariant
                j <= frames@.len(),
                self@.wf(),
                self@ == drained.frames(decoded(frames@.take(j as int))),
            decreases frames@.len() - j,
        {
            proof {
                assert(frames@.take(j + 1).drop_last() =~= frames@.take(j as int));
                let sofar = decoded(frames@.take(j as int));
                if let Some(f) = frames@[j as int] {
                    assert(sofar.push(f).drop_last() =~= sofar);
                }
            }
            if let Some(frame) = &frames[j] {
                self.apply_frame(frame);
            }
            j += 1;
        }
        proof {
            assert(frames@.take(j as int) =~= frames@);
        }
    }

    /// The input record to send this tick: that of the client's own avatar,
    /// if the client has one.
    pub fn client_send_input(&self) -> (input: Option<PlayerInput>)
        ensures
            input == (match self@.info(self@.client_id) {
                Some(info) => Some(self@.slots[info.client_entity as int]->0.input),
                None => None::<PlayerInput>,
            }),
    {
        proof {
            use_type_invariant(self);
        }
        match self.player_info(self.client_id) {
            Some(info) => match self.entity(info.client_entity) {
                Some(e) => Some(e.input),
                None => None,
            },
            None => None,
        }
    }

    /// Stores what the client predicts for its own avatar: the sampled input
    /// and the outcome of the local movement step. The result says whether
    /// the client has an avatar of its own; where it has none, nothing
    /// changes.
    pub fn predict_local(
        &mut self,
        input: PlayerInput,
        translation: Vec3,
        rotation: Quat,
        velocity: Vec3,
        grounded: bool,
    ) -> (written: bool)
        ensures
            final(self)@.wf(),
            written == old(self)@.info(old(self)@.client_id).is_some(),
            final(self)@ == (match old(self)@.info(old(self)@.client_id) {
                Some(info) => ClientModel {
                    slots: old(self)@.slots.update(
                        info.client_entity as int,
                        Some(
                            ClientEntity {
                                input,
                                translation,
                                rotation,
                                velocity,
                                grounded,
                                ..old(self)@.slots[info.client_entity as int]->0
                            },
                        ),
                    ),
                    ..old(self)@
                },
                None => old(self)@,
            }),
    {
        proof {
            use_type_invariant(&*self);
        }
        match self.player_info(self.client_id) {
            Some(info) => {
                proof {
                    assert(self@.lobby.contains_key(self.client_id));
                    assert(self@.mapping.contains_key(info.server_entity));
                }
                let mut parts = self.take_parts();
                if info.client_entity < parts.entities.len() as u64 {
                    if let Some(e) = parts.entities[info.client_entity as usize] {
                        let next = ClientEntity {
                            input,
                            translation,
                            rotation,
                            velocity,
                            grounded,
                            ..e
                        };
                        parts.entities.set(info.client_entity as usize, Some(next));
                    }
                }
                proof {
                    lemma_rewrite_keeps_agreement(old(self)@, parts.model(old(self)@.client_id));
                }
                self.put_parts(parts);
                true
            },
            None => false,
        }
    }
}

/// A state that differs from a well-formed one only in what live avatars
/// hold besides their identity is well-formed too.
proof fn lemma_rewrite_keeps_agreement(m: ClientModel, after: ClientModel)
    requires
        m.wf(),
        after.client_id == m.client_id,
        after.lobby == m.lobby,
        after.mapping == m.mapping,
        after.slots.len() == m.slots.len(),
        forall|l: int|
            0 <= l < m.slots.len() ==> (#[trigger] after.slots[l] is Some) == (m.slots[l] is Some),
        forall|l: int|
            0 <= l < m.slots.len() && (#[trigger] after.slots[l]) is Some ==> {
                &&& after.slots[l]->0.id == m.slots[l]->0.id
                &&& after.slots[l]->0.server_entity == m.slots[l]->0.server_entity
                &&& after.slots[l]->0.is_local == m.slots[l]->0.is_local
            },
    ensures
        after.wf(),
{
    assert forall|l: int| 0 <= l < after.slots.len() && (#[trigger] after.slots[l]) is Some implies {
        &&& after.lobby.contains_key(after.slots[l]->0.id)
        &&& after.lobby[after.slots[l]->0.id] == after.slots[l]->0.server_entity
        &&& after.mapping.contains_key(after.slots[l]->0.server_entity)
        &&& after.mapping[after.slots[l]->0.server_entity] == l
        &&& after.slots[l]->0.is_local == (after.slots[l]->0.id == after.client_id)
    } by {
        assert(m.slots[l] is Some);
    }
    assert forall|s: u64| #[trigger] after.mapping.contains_key(s) implies {
        &&& after.mapping[s] < after.slots.len()
        &&& after.slots[after.mapping[s] as int] is Some
        &&& after.slots[after.mapping[s] as int]->0.server_entity == s
    } by {
        assert(m.mapping.contains_key(s));
    }
    assert forall|id: u64| #[trigger] after.lobby.contains_key(id) implies {
        &&& after.mapping.contains_key(after.lobby[id])
        &&& after.mapping[after.lobby[id]] < after.slots.len()
        &&& after.slots[after.mapping[after.lobby[id]] as int] is Some
        &&& after.slots[after.mapping[after.lobby[id]] as int]->0.id == id
    } by {
        assert(m.lobby.contains_key(id));
        assert(m.mapping.contains_key(m.lobby[id]));
    }
}

/// A spawn request keeps a well-formed state well-formed.
pub proof fn lemma_spawn_keeps_wf(m: ClientModel, spawn: SpawnPlayer)
    requires
        m.wf(),
        m.slots.len() <= u64::MAX,
    ensures
        m.spawn(spawn).wf(),
{
    let after = m.spawn(spawn);
    if !m.refuses(spawn) {
        assert forall|l: int| 0 <= l < after.slots.len() && (#[trigger] after.slots[l]) is Some implies {
            &&& after.lobby.contains_key(after.slots[l]->0.id)
            &&& after.lobby[after.slots[l]->0.id] == after.slots[l]->0.server_entity
            &&& after.mapping.contains_key(after.slots[l]->0.server_entity)
            &&& after.mapping[after.slots[l]->0.server_entity] == l
            &&& after.slots[l]->0.is_local == (after.slots[l]->0.id == after.client_id)
        } by {
            if l < m.slots.len() {
                assert(m.slots[l] is Some);
            }
        }
        assert forall|s: u64| #[trigger] after.mapping.contains_key(s) implies {
            &&& after.mapping[s] < after.slots.len()
            &&& after.slots[after.mapping[s] as int] is Some
            &&& after.slots[after.mapping[s] as int]->0.server_entity == s
        } by {
            if s != spawn.entity {
                assert(m.mapping.contains_key(s));
            }
        }
        assert forall|id: u64| #[trigger] after.lobby.contains_key(id) implies {
            &&& after.mapping.contains_key(after.lobby[id])
            &&& after.mapping[after.lobby[id]] < after.slots.len()
            &&& after.slots[after.mapping[after.lobby[id]] as int] is Some
            &&& after.slots[after.mapping[after.lobby[id]] as int]->0.id == id
        } by {
            if id != spawn.id {
                assert(m.lobby.contains_key(id));
                assert(m.mapping.contains_key(m.lobby[id]));
            }
        }
    }
}

/// A removal keeps a well-formed state well-formed.
pub proof fn lemma_remove_keeps_wf(m: ClientModel, id: u64)
    requires
        m.wf(),
    ensures
        m.remove(id).wf(),
{
    let after = m.remove(id);
    if m.lobby.contains_key(id) {
        let server_entity = m.lobby[id];
        assert(m.mapping.contains_key(server_entity));
        let local = m.mapping[server_entity];
        assert(m.slots[local as int] is Some);
        assert forall|l: int| 0 <= l < after.slots.len() && (#[trigger] after.slots[l]) is Some implies {
            &&& after.lobby.contains_key(after.slots[l]->0.id)
            &&& after.lobby[after.slots[l]->0.id] == after.slots[l]->0.server_entity
            &&& after.mapping.contains_key(after.slots[l]->0.server_entity)
            &&& after.mapping[after.slots[l]->0.server_entity] == l
            &&& after.slots[l]->0.is_local == (after.slots[l]->0.id == after.client_id)
        } by {
            assert(m.slots[l] is Some);
        }
        assert forall|s: u64| #[trigger] after.mapping.contains_key(s) implies {
            &&& after.mapping[s] < after.slots.len()
            &&& after.slots[after.mapping[s] as int] is Some
            &&& after.slots[after.mapping[s] as int]->0.server_entity == s
        } by {
            assert(m.mapping.contains_key(s));
        }
        assert forall|other: u64| #[trigger] after.lobby.contains_key(other) implies {
            &&& after.mapping.contains_key(after.lobby[other])
            &&& after.mapping[after.lobby[other]] < after.slots.len()
            &&& after.slots[after.mapping[after.lobby[other]] as int] is Some
            &&& after.slots[after.mapping[after.lobby[other]] as int]->0.id == other
        } by {
            assert(m.lobby.contains_key(other));
            assert(m.mapping.contains_key(m.lobby[other]));
            let lo = m.mapping[m.lobby[other]];
            assert(m.slots[lo as int] is Some);
        }
    }
}

/// Writing a row keeps a well-formed state well-formed.
pub proof fn lemma_row_keeps_wf(m: ClientModel, row: EntityRow)
    requires
        m.wf(),
    ensures
        (ClientModel { slots: apply_row(m.slots, m.mapping, row), ..m }).wf(),
{
    let after = ClientModel { slots: apply_row(m.slots, m.mapping, row), ..m };
    assert forall|l: int| 0 <= l < after.slots.len() && (#[trigger] after.slots[l]) is Some implies {
        &&& after.lobby.contains_key(after.slots[l]->0.id)
        &&& after.lobby[after.slots[l]->0.id] == after.slots[l]->0.server_entity
        &&& after.mapping.contains_key(after.slots[l]->0.server_entity)
        &&& after.mapping[after.slots[l]->0.server_entity] == l
        &&& after.slots[l]->0.is_local == (after.slots[l]->0.id == after.client_id)
    } by {
        assert(m.slots[l] is Some);
    }
    assert forall|s: u64| #[trigger] after.mapping.contains_key(s) implies {
        &&& after.mapping[s] < after.slots.len()
        &&& after.slots[after.mapping[s] as int] is Some
        &&& after.slots[after.mapping[s] as int]->0.server_entity == s
    } by {
        assert(m.mapping.contains_key(s));
    }
    assert forall|id: u64| #[trigger] after.lobby.contains_key(id) implies {
        &&& after.mapping.contains_key(after.lobby[id])
        &&& after.mapping[after.lobby[id]] < after.slots.len()
        &&& after.slots[after.mapping[after.lobby[id]] as int] is Some
        &&& after.slots[after.mapping[after.lobby[id]] as int]->0.id == id
    } by {
        assert(m.lobby.contains_key(id));
        assert(m.mapping.contains_key(m.lobby[id]));
    }
}

} // verus!

verus! {

/// A frame never moves the newest tick backwards: after any frame the
/// newest tick is either what it was, or the frame's own tick, and then the
/// frame's tick was strictly newer. A frame that is not accepted leaves the
/// whole state as it was, and after a well-formed frame no frame with the
/// same tick is accepted again.
pub proof fn frame_never_rewinds(m: ClientModel, frame: NetworkFrame)
    ensures
        m.judge(frame) != FrameOutcome::Applied ==> m.frame(frame) == m,
        m.judge(frame) == FrameOutcome::Applied ==> {
            &&& m.frame(frame).tick == Some(frame.tick)
            &&& accepts(m.tick, frame.tick)
        },
        frame.entities.aligned() ==> !accepts(m.frame(frame).tick, frame.tick),
        m.frame(frame).lobby == m.lobby,
        m.frame(frame).mapping == m.mapping,
{
}

/// The same frame delivered twice in a row is dropped the second time.
pub proof fn duplicate_frame_is_dropped(m: ClientModel, frame: NetworkFrame)
    ensures
        m.frame(frame).frame(frame) == m.frame(frame),
{
}

/// The newest tick after a run of ticks was offered, first to last.
pub open spec fn newest_after(recent: Option<u32>, ticks: Seq<u32>) -> Option<u32>
    decreases ticks.len(),
{
    if ticks.len() == 0 {
        recent
    } else {
        let before = newest_after(recent, ticks.drop_last());
        if accepts(before, ticks.last()) {
            Some(ticks.last())
        } else {
            before
        }
    }
}

/// The ticks of a run that were accepted, in the order offered.
pub open spec fn accepted_ticks(recent: Option<u32>, ticks: Seq<u32>) -> Seq<u32>
    decreases ticks.len(),
{
    if ticks.len() == 0 {
        Seq::empty()
    } else {
        let before = accepted_ticks(recent, ticks.drop_last());
        if accepts(newest_after(recent, ticks.drop_last()), ticks.last()) {
            before.push(ticks.last())
        } else {
            before
        }
    }
}

/// Whatever ticks are offered in whatever order, those accepted are strictly
/// increasing, each is newer than the tick the client started from, and the
/// newest tick in the end is the last one accepted and no older than any
/// tick offered.
pub proof fn accepted_ticks_strictly_increase(recent: Option<u32>, ticks: Seq<u32>)
    ensures
        forall|i: int, j: int|
            0 <= i < j < accepted_ticks(recent, ticks).len() ==> accepted_ticks(recent, ticks)[i]
                < accepted_ticks(recent, ticks)[j],
        forall|i: int|
            0 <= i < accepted_ticks(recent, ticks).len() ==> accepts(
                recent,
                #[trigger] accepted_ticks(recent, ticks)[i],
            ),
        accepted_ticks(recent, ticks).len() == 0 ==> newest_after(recent, ticks) == recent,
        accepted_ticks(recent, ticks).len() > 0 ==> newest_after(recent, ticks) == Some(
            accepted_ticks(recent, ticks).last(),
        ),
        forall|i: int|
            0 <= i < ticks.len() ==> !accepts(newest_after(recent, ticks), #[trigger] ticks[i]),
    decreases ticks.len(),
{
    if ticks.len() > 0 {
        let head = ticks.drop_last();
        accepted_ticks_strictly_increase(recent, head);
        let acc = accepted_ticks(recent, ticks);
        let before = accepted_ticks(recent, head);
        assert forall|i: int| 0 <= i < ticks.len() implies !accepts(
            newest_after(recent, ticks),
            #[trigger] ticks[i],
        ) by {
            if i < head.len() {
                assert(head[i] == ticks[i]);
            }
        }
        assert forall|i: int, j: int| 0 <= i < j < acc.len() implies acc[i] < acc[j] by {
            if j < before.len() {
                assert(acc[i] == before[i] && acc[j] == before[j]);
            } else {
                assert(acc[i] == before[i]);
                assert(before.last() == before[before.len() - 1]);
            }
        }
    }
}

/// The newest tick of a client after a run of well-formed frames is the
/// newest after their ticks were offered in that order.
pub proof fn frames_follow_their_ticks(m: ClientModel, frames: Seq<NetworkFrame>)
    requires
        forall|i: int| 0 <= i < frames.len() ==> (#[trigger] frames[i]).entities.aligned(),
    ensures
        m.frames(frames).tick == newest_after(m.tick, frames.map_values(|f: NetworkFrame| f.tick)),
        m.frames(frames).lobby == m.lobby,
        m.frames(frames).mapping == m.mapping,
    decreases frames.len(),
{
    let ticks = frames.map_values(|f: NetworkFrame| f.tick);
    if frames.len() > 0 {
        frames_follow_their_ticks(m, frames.drop_last());
        assert(frames.drop_last().map_values(|f: NetworkFrame| f.tick) =~= ticks.drop_last());
        assert(ticks.last() == frames.last().tick);
    }
}

/// Rows whose handles are not mapped change nothing.
pub proof fn unmapped_rows_change_nothing(
    slots: Seq<Option<ClientEntity>>,
    mapping: Map<u64, u64>,
    rows: Seq<EntityRow>,
)
    requires
        forall|i: int| 0 <= i < rows.len() ==> !mapping.contains_key((#[trigger] rows[i]).entity),
    ensures
        apply_rows(slots, mapping, rows) == slots,
    decreases rows.len(),
{
    if rows.len() > 0 {
        unmapped_rows_change_nothing(slots, mapping, rows.drop_last());
    }
}

/// Rows touch only the avatars that their handles are mapped to: every
/// other slot keeps what it held, and no slot appears or disappears.
pub proof fn rows_touch_only_mapped_slots(
    slots: Seq<Option<ClientEntity>>,
    mapping: Map<u64, u64>,
    rows: Seq<EntityRow>,
    l: int,
)
    requires
        0 <= l < slots.len(),
        forall|i: int|
            0 <= i < rows.len() && mapping.contains_key((#[trigger] rows[i]).entity)
                ==> mapping[rows[i].entity] != l,
    ensures
        apply_rows(slots, mapping, rows).len() == slots.len(),
        apply_rows(slots, mapping, rows)[l] == slots[l],
    decreases rows.len(),
{
    if rows.len() > 0 {
        rows_touch_only_mapped_slots(slots, mapping, rows.drop_last(), l);
        rows_keep_length(slots, mapping, rows.drop_last());
    }
}

/// Rows neither add nor drop slots, and a slot is live afterwards exactly
/// when it was live before.
pub proof fn rows_keep_length(
    slots: Seq<Option<ClientEntity>>,
    mapping: Map<u64, u64>,
    rows: Seq<EntityRow>,
)
    ensures
        apply_rows(slots, mapping, rows).len() == slots.len(),
        forall|l: int|
            0 <= l < slots.len() ==> ((#[trigger] apply_rows(slots, mapping, rows)[l]) is Some)
                == (slots[l] is Some),
    decreases rows.len(),
{
    if rows.len() > 0 {
        rows_keep_length(slots, mapping, rows.drop_last());
    }
}

/// A player that was created is overwritten by the next accepted frame that
/// names its server handle once: its avatar then holds what the row says.
pub proof fn created_player_follows_frame(m: ClientModel, spawn: SpawnPlayer, frame: NetworkFrame)
    requires
        m.wf(),
        m.slots.len() < u64::MAX,
        !m.refuses(spawn),
        frame.entities.aligned(),
        accepts(m.tick, frame.tick),
        frame.entities.rows().len() == 1,
        frame.entities.rows()[0].entity == spawn.entity,
    ensures
        m.spawn(spawn).info(spawn.id) == Some(
            PlayerInfo { client_entity: m.slots.len() as u64, server_entity: spawn.entity },
        ),
        m.spawn(spawn).slot(m.slots.len() as u64) == Some(spawned(spawn)),
        m.spawn(spawn).frame(frame).slot(m.slots.len() as u64) == Some(
            overwritten(spawned(spawn), frame.entities.rows()[0]),
        ),
{
    let after = m.spawn(spawn);
    let rows = frame.entities.rows();
    assert(rows.drop_last() =~= Seq::<EntityRow>::empty());
    assert(apply_rows(after.slots, after.mapping, rows.drop_last()) == after.slots);
    assert(rows.last() == rows[0]);
}

/// Once a known player is removed, neither its id nor its server handle is
/// known any more, its slot is empty, and a frame all of whose rows name
/// that server handle changes no avatar.
pub proof fn removed_player_ignores_frames(m: ClientModel, id: u64, frame: NetworkFrame)
    requires
        m.wf(),
        m.lobby.contains_key(id),
        forall|i: int|
            0 <= i < frame.entities.rows().len() ==> (#[trigger] frame.entities.rows()[i]).entity
                == m.lobby[id],
    ensures
        !m.remove(id).lobby.contains_key(id),
        !m.remove(id).mapping.contains_key(m.lobby[id]),
        m.remove(id).info(id).is_none(),
        m.remove(id).slot(m.info(id)->0.client_entity).is_none(),
        m.remove(id).frame(frame).slots == m.remove(id).slots,
{
    let after = m.remove(id);
    assert(m.mapping.contains_key(m.lobby[id]));
    unmapped_rows_change_nothing(after.slots, after.mapping, frame.entities.rows());
}

/// Where a frame names no entity twice, every row whose handle is mapped
/// lands: afterwards the avatar that the handle is mapped to holds what the
/// row was written over it.
pub proof fn each_mapped_row_lands(m: ClientModel, rows: Seq<EntityRow>, i: int)
    requires
        m.wf(),
        distinct_handles(rows),
        0 <= i < rows.len(),
        m.mapping.contains_key(rows[i].entity),
    ensures
        apply_rows(m.slots, m.mapping, rows)[m.mapping[rows[i].entity] as int] == Some(
            overwritten(m.slots[m.mapping[rows[i].entity] as int]->0, rows[i]),
        ),
    decreases rows.len(),
{
    let l = m.mapping[rows[i].entity] as int;
    let head = rows.drop_last();
    let mid = apply_rows(m.slots, m.mapping, head);
    rows_keep_length(m.slots, m.mapping, head);
    if i == rows.len() - 1 {
        assert forall|k: int|
            0 <= k < head.len() && m.mapping.contains_key((#[trigger] head[k]).entity) implies m.mapping[head[k].entity]
            != l by {
            assert(head[k] == rows[k]);
            assert(m.mapping.contains_key(rows[k].entity));
        }
        rows_touch_only_mapped_slots(m.slots, m.mapping, head, l);
    } else {
        assert(head[i] == rows[i]);
        assert(distinct_handles(head)) by {
            assert forall|a: int, b: int| 0 <= a < b < head.len() implies head[a].entity
                != head[b].entity by {
                assert(head[a] == rows[a] && head[b] == rows[b]);
            }
        }
        each_mapped_row_lands(m, head, i);
        if m.mapping.contains_key(rows.last().entity) {
            assert(m.mapping.contains_key(rows[rows.len() - 1].entity));
        }
    }
}

/// A client flags at most one avatar as its own, and every known player
/// has exactly one avatar.
pub proof fn at_most_one_own_avatar(m: ClientModel)
    requires
        m.wf(),
    ensures
        forall|a: int, b: int|
            0 <= a < m.slots.len() && 0 <= b < m.slots.len() && (#[trigger] m.slots[a]) is Some
                && (#[trigger] m.slots[b]) is Some && m.slots[a]->0.is_local
                && m.slots[b]->0.is_local ==> a == b,
        forall|a: int, b: int|
            0 <= a < m.slots.len() && 0 <= b < m.slots.len() && (#[trigger] m.slots[a]) is Some
                && (#[trigger] m.slots[b]) is Some && m.slots[a]->0.id == m.slots[b]->0.id ==> a
                == b,
{
}

} // verus!
