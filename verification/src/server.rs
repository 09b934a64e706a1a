//! The authoritative side: the roster of active connections, the avatars it
//! simulates, and the frame it broadcasts every tick.
//!
//! Avatars live in slots that are never reused; an avatar's handle is the
//! index of its slot.

use crate::networking::{
    distinct_handles, EntityRow, NetworkFrame, NetworkedEntities, PlayerCommand, PlayerInput, Quat, ServerMessages,
    Vec3,
};
use crate::player::{spawn_point, JumpStage, PlayerEntity, jump_stage, spec_jump_stage};
use crate::table::{table_get, table_insert, table_remove, HandleTable};
use vstd::prelude::*;

verus! {

/// The roster: the avatar handle of every active connection, by client id.
pub struct ServerLobby {
    players: HandleTable,
}

impl View for ServerLobby {
    type V = Map<u64, u64>;

    closed spec fn view(&self) -> Map<u64, u64> {
        self.players@
    }
}

impl ServerLobby {
    /// The avatar handle of the connection `id`, if it is active.
    pub fn get(&self, id: u64) -> (handle: Option<u64>)
        ensures
            handle == (if self@.contains_key(id) { Some(self@[id]) } else { None::<u64> }),
    {
        table_get(&self.players, id)
    }
}

/// A lifecycle message together with its addressees.
#[derive(Clone, Copy, Debug, PartialEq, Eq, Structural)]
pub enum Outgoing {
    /// For one connection only.
    To { client: u64, message: ServerMessages },
    /// For every connection.
    All { message: ServerMessages },
}

/// What the transport reports of a connection.
#[derive(Clone, Copy, Debug, PartialEq, Eq, Structural)]
pub enum ServerEvent {
    ClientConnected { client_id: u64 },
    ClientDisconnected { client_id: u64 },
}

/// What arrived from one connection since the last tick, in arrival order.
/// A message that could not be decoded stands as `None`.
#[derive(Clone, Debug, PartialEq, Eq)]
pub struct Inbox {
    pub client_id: u64,
    pub commands: Vec<Option<PlayerCommand>>,
    pub inputs: Vec<Option<PlayerInput>>,
}

/// The server's simulation state. Its fields are private, so that roster
/// and slots can only change together.
pub struct Server {
    lobby: ServerLobby,
    entities: Vec<Option<PlayerEntity>>,
    /// The tick that the next frame will carry.
    tick: u32,
}

/// The server's state as mathematics.
pub struct ServerModel {
    pub roster: Map<u64, u64>,
    pub slots: Seq<Option<PlayerEntity>>,
    pub tick: u32,
}

impl View for Server {
    type V = ServerModel;

    closed spec fn view(&self) -> ServerModel {
        ServerModel { roster: self.lobby.players@, slots: self.entities@, tick: self.tick }
    }
}

/// The announcement of a new avatar.
pub open spec fn creation(entity: u64, id: u64) -> Outgoing {
    Outgoing::All {
        message: ServerMessages::PlayerCreate { entity, id, translation: spawn_point() },
    }
}

/// The announcement that a player is gone.
pub open spec fn removal(id: u64) -> Outgoing {
    Outgoing::All { message: ServerMessages::PlayerRemove { id } }
}

/// The messages that bring a new connection up to date: one creation
/// message for each live avatar, in slot order, addressed to `client` alone.
pub open spec fn introductions(slots: Seq<Option<PlayerEntity>>, client: u64) -> Seq<Outgoing>
    decreases slots.len(),
{
    if slots.len() == 0 {
        Seq::empty()
    } else {
        let before = introductions(slots.drop_last(), client);
        match slots.last() {
            Some(e) => before.push(
                Outgoing::To {
                    client,
                    message: ServerMessages::PlayerCreate {
                        entity: (slots.len() - 1) as u64,
                        id: e.id,
                        translation: e.translation,
                    },
                },
            ),
            None => before,
        }
    }
}

/// The rows of a frame: one for each live avatar, in slot order, under its
/// handle.
pub open spec fn frame_rows(slots: Seq<Option<PlayerEntity>>) -> Seq<EntityRow>
    decreases slots.len(),
{
    if slots.len() == 0 {
        Seq::empty()
    } else {
        let before = frame_rows(slots.drop_last());
        match slots.last() {
            Some(e) => before.push(e.spec_row((slots.len() - 1) as u64)),
            None => before,
        }
    }
}

/// The handles of the live avatars, in slot order.
pub open spec fn live_handles(slots: Seq<Option<PlayerEntity>>) -> Seq<u64>
    decreases slots.len(),
{
    if slots.len() == 0 {
        Seq::empty()
    } else {
        let before = live_handles(slots.drop_last());
        match slots.last() {
            Some(_) => before.push((slots.len() - 1) as u64),
            None => before,
        }
    }
}

impl ServerModel {
    /// Roster and slots agree: every connection's handle names a live avatar
    /// that carries the connection's id, and every live avatar is the one
    /// that the roster records for its id. So each active connection has
    /// exactly one avatar.
    pub open spec fn wf(&self) -> bool {
        &&& forall|id: u64| #[trigger]
            self.roster.contains_key(id) ==> {
                &&& self.roster[id] < self.slots.len()
                &&& self.slots[self.roster[id] as int] is Some
                &&& self.slots[self.roster[id] as int]->0.id == id
            }
        &&& forall|h: int|
            0 <= h < self.slots.len() && (#[trigger] self.slots[h]) is Some ==> {
                &&& self.roster.contains_key(self.slots[h]->0.id)
                &&& self.roster[self.slots[h]->0.id] == h
            }
    }

    /// A server without connections, about to send tick 0.
    pub open spec fn fresh() -> ServerModel {
        ServerModel { roster: Map::empty(), slots: Seq::empty(), tick: 0 }
    }

    /// Whether `id` is an active connection.
    pub open spec fn active(self, id: u64) -> bool {
        self.roster.contains_key(id)
    }

    /// The avatar in the slot `handle`, if one lives there.
    pub open spec fn slot(self, handle: u64) -> Option<PlayerEntity> {
        if handle < self.slots.len() {
            self.slots[handle as int]
        } else {
            None
        }
    }

    /// The avatar of an active connection.
    pub open spec fn avatar(self, id: u64) -> Option<PlayerEntity> {
        if self.active(id) {
            self.slot(self.roster[id])
        } else {
            None
        }
    }

    /// The state after a connection became active: it has an avatar in a
    /// new slot. One that was active already changes nothing.
    pub open spec fn connect(self, id: u64) -> ServerModel {
        if self.active(id) {
            self
        } else {
            ServerModel {
                roster: self.roster.insert(id, self.slots.len() as u64),
                slots: self.slots.push(Some(PlayerEntity::spec_spawn(id))),
                ..self
            }
        }
    }

    /// What is sent when a connection becomes active: the newcomer is told
    /// of every avatar that already lives, then its own avatar is announced
    /// to everyone. One that was active already causes no message.
    pub open spec fn connect_out(self, id: u64) -> Seq<Outgoing> {
        if self.active(id) {
            Seq::empty()
        } else {
            introductions(self.slots, id).push(creation(self.slots.len() as u64, id))
        }
    }

    /// The state after a connection was lost: its roster entry and its
    /// avatar are gone.
    pub open spec fn disconnect(self, id: u64) -> ServerModel {
        ServerModel {
            roster: self.roster.remove(id),
            slots: if self.active(id) && self.roster[id] < self.slots.len() {
                self.slots.update(self.roster[id] as int, None)
            } else {
                self.slots
            },
            ..self
        }
    }

    /// The state after a transport event.
    pub open spec fn event(self, event: ServerEvent) -> ServerModel {
        match event {
            ServerEvent::ClientConnected { client_id } => self.connect(client_id),
            ServerEvent::ClientDisconnected { client_id } => self.disconnect(client_id),
        }
    }

    /// What is sent on a transport event. A lost connection is announced to
    /// everyone, whether or not it was active.
    pub open spec fn event_out(self, event: ServerEvent) -> Seq<Outgoing> {
        match event {
            ServerEvent::ClientConnected { client_id } => self.connect_out(client_id),
            ServerEvent::ClientDisconnected { client_id } => seq![removal(client_id)],
        }
    }

    /// The state after a run of transport events, first to last.
    pub open spec fn events(self, events: Seq<ServerEvent>) -> ServerModel
        decreases events.len(),
    {
        if events.len() == 0 {
            self
        } else {
            self.events(events.drop_last()).event(events.last())
        }
    }

    /// Everything sent on a run of transport events, in order.
    pub open spec fn events_out(self, events: Seq<ServerEvent>) -> Seq<Outgoing>
        decreases events.len(),
    {
        if events.len() == 0 {
            Seq::empty()
        } else {
            self.events_out(events.drop_last()) + self.events(events.drop_last()).event_out(
                events.last(),
            )
        }
    }

    /// The state after an input record arrived from `id`: it replaces the
    /// one staged on that connection's avatar. Input from a connection that
    /// is not active changes nothing.
    pub open spec fn stage(self, id: u64, input: PlayerInput) -> ServerModel {
        match self.avatar(id) {
            Some(e) => ServerModel {
                slots: self.slots.update(self.roster[id] as int, Some(PlayerEntity { input, ..e })),
                ..self
            },
            None => self,
        }
    }

    /// The state after one message arrived on the input channel of `id`:
    /// one that could not be decoded is dropped.
    pub open spec fn receive(self, id: u64, input: Option<PlayerInput>) -> ServerModel {
        match input {
            Some(input) => self.stage(id, input),
            None => self,
        }
    }

    /// The state after a run of messages arrived on the input channel of
    /// `id`, first to last.
    pub open spec fn stage_all(self, id: u64, inputs: Seq<Option<PlayerInput>>) -> ServerModel
        decreases inputs.len(),
    {
        if inputs.len() == 0 {
            self
        } else {
            self.stage_all(id, inputs.drop_last()).receive(id, inputs.last())
        }
    }

    /// The state after the inboxes of a tick were drained, one connection
    /// after the other. Commands have no effect on the state.
    pub open spec fn drain(self, inboxes: Seq<Inbox>) -> ServerModel
        decreases inboxes.len(),
    {
        if inboxes.len() == 0 {
            self
        } else {
            self.drain(inboxes.drop_last()).stage_all(
                inboxes.last().client_id,
                inboxes.last().inputs@,
            )
        }
    }

    /// The state after the jump stage of a movement step for the avatar in
    /// the slot `handle`: its grounded flag and pending jump are as the
    /// stage says. Nothing changes where no avatar lives there.
    pub open spec fn jump(self, handle: u64, on_ground: bool) -> ServerModel {
        match self.slot(handle) {
            Some(e) => ServerModel {
                slots: self.slots.update(
                    handle as int,
                    Some(
                        PlayerEntity {
                            grounded: spec_jump_stage(on_ground, e.input.jump).grounded,
                            input: PlayerInput {
                                jump: spec_jump_stage(on_ground, e.input.jump).jump,
                                ..e.input
                            },
                            ..e
                        },
                    ),
                ),
                ..self
            },
            None => self,
        }
    }

    /// The state after the outcome of a movement step was written to the
    /// avatar in the slot `handle`. Nothing changes where no avatar lives
    /// there.
    pub open spec fn motion(
        self,
        handle: u64,
        translation: Vec3,
        rotation: Quat,
        velocity: Vec3,
    ) -> ServerModel {
        match self.slot(handle) {
            Some(e) => ServerModel {
                slots: self.slots.update(
                    handle as int,
                    Some(PlayerEntity { translation, rotation, velocity, ..e }),
                ),
                ..self
            },
            None => self,
        }
    }
}

impl Server {
    /// Roster and slots of every server agree.
    #[verifier::type_invariant]
    spec fn agrees(&self) -> bool {
        self@.wf()
    }

    /// Roster and slots of every server agree. Calling this does nothing
    /// when the program runs; it tells a proof what holds of `self`.
    pub fn agreement(&self)
        ensures
            self@.wf(),
    {
        proof {
            use_type_invariant(self);
        }
    }

    /// Takes the state apart, leaving a server without connections behind.
    fn take_parts(&mut self) -> (parts: (HandleTable, Vec<Option<PlayerEntity>>, u32))
        ensures
            parts.0@ == old(self)@.roster,
            parts.1@ == old(self)@.slots,
            parts.2 == old(self)@.tick,
            old(self)@.wf(),
    {
        proof {
            use_type_invariant(&*self);
        }
        let mut taken = Server::new();
        std::mem::swap(self, &mut taken);
        let Server { lobby, entities, tick } = taken;
        let ServerLobby { players } = lobby;
        (players, entities, tick)
    }

    /// Puts a state together whose roster and slots agree.
    fn put_parts(&mut self, players: HandleTable, entities: Vec<Option<PlayerEntity>>, tick: u32)
        requires
            (ServerModel { roster: players@, slots: entities@, tick }).wf(),
        ensures
            final(self)@ == (ServerModel { roster: players@, slots: entities@, tick }),
    {
        *self = Server { lobby: ServerLobby { players }, entities, tick };
    }

    /// A server without connections, about to send tick 0.
    pub fn new() -> (server: Server)
        ensures
            server@.wf(),
            server@ == ServerModel::fresh(),
    {
        Server { lobby: ServerLobby { players: HandleTable::new() }, entities: Vec::new(), tick: 0 }
    }

    /// A server without connections, about to send `tick`.
    pub fn starting_at(tick: u32) -> (server: Server)
        ensures
            server@.wf(),
            server@ == (ServerModel { tick, ..ServerModel::fresh() }),
    {
        Server { lobby: ServerLobby { players: HandleTable::new() }, entities: Vec::new(), tick }
    }

    /// The tick that the next frame will carry.
    pub fn tick(&self) -> (tick: u32)
        ensures
            tick == self@.tick,
    {
        self.tick
    }

    /// Replaces what a live avatar holds, but for its id.
    fn write_slot(&mut self, handle: u64, entity: PlayerEntity)
        requires
            old(self)@.slot(handle) is Some,
            old(self)@.slot(handle)->0.id == entity.id,
        ensures
            final(self)@ == (ServerModel {
                slots: old(self)@.slots.update(handle as int, Some(entity)),
                ..old(self)@
            }),
            final(self)@.wf(),
    {
        let (players, mut entities, tick) = self.take_parts();
        if handle < entities.len() as u64 {
            entities.set(handle as usize, Some(entity));
        }
        proof {
            lemma_rewrite_keeps_agreement(
                old(self)@,
                ServerModel { roster: players@, slots: entities@, tick },
            );
        }
        self.put_parts(players, entities, tick);
    }

    /// The roster.
    pub fn lobby(&self) -> (lobby: &ServerLobby)
        ensures
            lobby@ == self@.roster,
    {
        &self.lobby
    }

    /// The avatar handle of an active connection.
    pub fn handle_of(&self, id: u64) -> (handle: Option<u64>)
        ensures
            handle == (if self@.active(id) { Some(self@.roster[id]) } else { None::<u64> }),
    {
        self.lobby.get(id)
    }

    /// The avatar in the slot `handle`, if one lives there.
    pub fn player(&self, handle: u64) -> (entity: Option<PlayerEntity>)
        ensures
            entity == self@.slot(handle),
    {
        if handle < self.entities.len() as u64 {
            self.entities[handle as usize]
        } else {
            None
        }
    }

    /// The handles of the live avatars, in slot order.
    pub fn handles(&self) -> (handles: Vec<u64>)
        ensures
            handles@ == live_handles(self@.slots),
    {
        let mut handles: Vec<u64> = Vec::new();
        let mut i: usize = 0;
        while i < self.entities.len()
            invariant
                i <= self.entities@.len(),
                handles@ == live_handles(self.entities@.take(i as int)),
            decreases self.entities@.len() - i,
        {
            proof {
                assert(self.entities@.take(i + 1).drop_last() =~= self.entities@.take(i as int));
            }
            if self.entities[i].is_some() {
                handles.push(i as u64);
            }
            i += 1;
        }
        proof {
            assert(self.entities@.take(i as int) =~= self.entities@);
        }
        handles
    }

    /// A connection becomes active. The newcomer is told of every avatar
    /// that already lives, then gets an avatar of its own at the spawn
    /// point, which is announced to everyone. A connection that is already
    /// active changes nothing and causes no message.
    pub fn connect(&mut self, id: u64) -> (out: Vec<Outgoing>)
        ensures
            final(self)@.wf(),
            final(self)@ == old(self)@.connect(id),
            out@ == old(self)@.connect_out(id),
    {
        proof {
            use_type_invariant(&*self);
        }
        let mut out: Vec<Outgoing> = Vec::new();
        if table_get(&self.lobby.players, id).is_some() {
            return out;
        }
        let mut i: usize = 0;
        while i < self.entities.len()
            invariant
                i <= self.entities@.len(),
                out@ == introductions(self.entities@.take(i as int), id),
            decreases self.entities@.len() - i,
        {
            proof {
                assert(self.entities@.take(i + 1).drop_last() =~= self.entities@.take(i as int));
            }
            if let Some(e) = self.entities[i] {
                out.push(
                    Outgoing::To {
                        client: id,
                        message: ServerMessages::PlayerCreate {
                            entity: i as u64,
                            id: e.id,
                            translation: e.translation,
                        },
                    },
                );
            }
            i += 1;
        }
        proof {
            assert(self.entities@.take(i as int) =~= self.entities@);
        }
        let (mut players, mut entities, tick) = self.take_parts();
        let handle: u64 = entities.len() as u64;
        let entity = PlayerEntity::spawn(id);
        entities.push(Some(entity));
        table_insert(&mut players, id, handle);
        self.put_parts(players, entities, tick);
        out.push(
            Outgoing::All {
                message: ServerMessages::PlayerCreate {
                    entity: handle,
                    id,
                    translation: entity.translation,
                },
            },
        );
        out
    }

    /// A connection is lost. Its avatar and roster entry go, and the removal
    /// is announced to everyone, whether or not the connection was active.
    pub fn disconnect(&mut self, id: u64) -> (out: Vec<Outgoing>)
        ensures
            final(self)@.wf(),
            final(self)@ == old(self)@.disconnect(id),
            out@ == seq![removal(id)],
            !final(self)@.active(id),
    {
        let (mut players, mut entities, tick) = self.take_parts();
        if let Some(handle) = table_remove(&mut players, id) {
            proof {
                assert(old(self)@.roster.contains_key(id));
            }
            if handle < entities.len() as u64 {
                entities.set(handle as usize, None);
            }
        }
        self.put_parts(players, entities, tick);
        let mut out: Vec<Outgoing> = Vec::new();
        out.push(Outgoing::All { message: ServerMessages::PlayerRemove { id } });
        proof {
            assert(out@ =~= seq![removal(id)]);
            assert(self@.roster =~= old(self)@.disconnect(id).roster);
        }
        out
    }

    /// An input record arrives from a connection. It replaces the one staged
    /// on that connection's avatar: the last one to arrive before a step is
    /// the one that the step reads. Input from a connection that is not
    /// active is dropped.
    pub fn stage_input(&mut self, id: u64, input: PlayerInput)
        ensures
            final(self)@.wf(),
            final(self)@ == old(self)@.stage(id, input),
    {
        proof {
            use_type_invariant(&*self);
        }
        if let Some(handle) = table_get(&self.lobby.players, id) {
            proof {
                assert(old(self)@.roster.contains_key(id));
            }
            if handle < self.entities.len() as u64 {
                if let Some(e) = self.entities[handle as usize] {
                    let staged = PlayerEntity { input, ..e };
                    self.write_slot(handle, staged);
                }
            }
        }
    }

    /// A command arrives from a connection. No command has an effect on the
    /// simulation yet, so delivering one any number of times leaves the
    /// server as it is.
    pub fn apply_command(&mut self, id: u64, command: PlayerCommand)
        ensures
            *final(self) == *old(self),
    {
    }

    /// The first half of a tick: every transport event is handled in order,
    /// then every connection's inbox is drained, commands before input. A
    /// message that could not be decoded is dropped and the rest of the
    /// inbox is still read. The result is what has to be sent, in order.
    pub fn server_update_system(&mut self, events: &Vec<ServerEvent>, inboxes: &Vec<Inbox>) -> (out:
        Vec<Outgoing>)
        ensures
            final(self)@.wf(),
            final(self)@ == old(self)@.events(events@).drain(inboxes@),
            out@ == old(self)@.events_out(events@),
    {
        proof {
            use_type_invariant(&*self);
        }
        let mut out: Vec<Outgoing> = Vec::new();
        let mut i: usize = 0;
        while i < events.len()
            invariant
                i <= events@.len(),
                self@.wf(),
                self@ == old(self)@.events(events@.take(i as int)),
                out@ == old(self)@.events_out(events@.take(i as int)),
            decreases events@.len() - i,
        {
            proof {
                assert(events@.take(i + 1).drop_last() =~= events@.take(i as int));
            }
            let mut sent = match events[i] {
                ServerEvent::ClientConnected { client_id } => self.connect(client_id),
                ServerEvent::ClientDisconnected { client_id } => self.disconnect(client_id),
            };
            out.append(&mut sent);
            i += 1;
        }
        proof {
            assert(events@.take(i as int) =~= events@);
        }
        let ghost settled = self@;
        let mut j: usize = 0;
        while j < inboxes.len()
            invariant
                j <= inboxes@.len(),
                self@.wf(),
                self@ == settled.drain(inboxes@.take(j as int)),
            decreases inboxes@.len() - j,
        {
            proof {
                assert(inboxes@.take(j + 1).drop_last() =~= inboxes@.take(j as int));
            }
            let inbox = &inboxes[j];
            let mut c: usize = 0;
            while c < inbox.commands.len()
                invariant
                    c <= inbox.commands@.len(),
                    self@.wf(),
                    self@ == settled.drain(inboxes@.take(j as int)),
                decreases inbox.commands@.len() - c,
            {
                if let Some(command) = inbox.commands[c] {
                    self.apply_command(inbox.client_id, command);
                }
                c += 1;
            }
            let ghost before = self@;
            let mut k: usize = 0;
            while k < inbox.inputs.len()
                invariant
                    k <= inbox.inputs@.len(),
                    self@.wf(),
                    self@ == before.stage_all(inbox.client_id, inbox.inputs@.take(k as int)),
                decreases inbox.inputs@.len() - k,
            {
                proof {
                    assert(inbox.inputs@.take(k + 1).drop_last() =~= inbox.inputs@.take(k as int));
                }
                if let Some(input) = inbox.inputs[k] {
                    self.stage_input(inbox.client_id, input);
                }
                k += 1;
            }
            proof {
                assert(inbox.inputs@.take(k as int) =~= inbox.inputs@);
            }
            j += 1;
        }
        proof {
            assert(inboxes@.take(j as int) =~= inboxes@);
        }
        out
    }

    /// The jump stage of a movement step for the avatar in the slot
    /// `handle`, given the ground probe's answer: the avatar's grounded flag
    /// and pending jump are updated, and the result says what becomes of its
    /// vertical velocity. `None`, and no change, where no avatar lives there.
    pub fn resolve_jump(&mut self, handle: u64, on_ground: bool) -> (stage: Option<JumpStage>)
        ensures
            final(self)@.wf(),
            final(self)@ == old(self)@.jump(handle, on_ground),
            stage == (match old(self)@.slot(handle) {
                Some(e) => Some(spec_jump_stage(on_ground, e.input.jump)),
                None => None::<JumpStage>,
            }),
    {
        proof {
            use_type_invariant(&*self);
        }
        if handle >= self.entities.len() as u64 {
            return None;
        }
        match self.entities[handle as usize] {
            Some(e) => {
                let stage = jump_stage(on_ground, e.input.jump);
                let moved = PlayerEntity {
                    grounded: stage.grounded,
                    input: PlayerInput { jump: stage.jump, ..e.input },
                    ..e
                };
                self.write_slot(handle, moved);
                Some(stage)
            },
            None => None,
        }
    }

    /// Writes the outcome of a movement step back to the avatar in the slot
    /// `handle`. The result says whether an avatar lives there; where none
    /// does, nothing changes.
    pub fn set_motion(&mut self, handle: u64, translation: Vec3, rotation: Quat, velocity: Vec3)
        -> (written: bool)
        ensures
            final(self)@.wf(),
            final(self)@ == old(self)@.motion(handle, translation, rotation, velocity),
            written == old(self)@.slot(handle).is_some(),
    {
        proof {
            use_type_invariant(&*self);
        }
        if handle >= self.entities.len() as u64 {
            return false;
        }
        match self.entities[handle as usize] {
            Some(e) => {
                let moved = PlayerEntity { translation, rotation, velocity, ..e };
                self.write_slot(handle, moved);
                true
            },
            None => false,
        }
    }

    /// The second half of a tick: builds the frame of the current tick from
    /// the live avatars and moves on to the next tick, so that successive
    /// frames carry strictly increasing ticks. `None`, and no change, once
    /// the tick counter can count no further.
    pub fn server_network_sync(&mut self) -> (frame: Option<NetworkFrame>)
        ensures
            final(self)@.roster == old(self)@.roster,
            final(self)@.slots == old(self)@.slots,
            old(self)@.tick == u32::MAX ==> frame.is_none() && final(self)@.tick == old(self)@.tick,
            old(self)@.tick < u32::MAX ==> {
                &&& frame.is_some()
                &&& frame->0.tick == old(self)@.tick
                &&& frame->0.entities.aligned()
                &&& frame->0.entities.rows() == frame_rows(old(self)@.slots)
                &&& final(self)@.tick == old(self)@.tick + 1
            },
    {
        proof {
            use_type_invariant(&*self);
        }
        if self.tick == u32::MAX {
            return None;
        }
        let mut columns = NetworkedEntities::new();
        let mut i: usize = 0;
        while i < self.entities.len()
            invariant
                i <= self.entities@.len(),
                columns.aligned(),
                columns.rows() == frame_rows(self.entities@.take(i as int)),
            decreases self.entities@.len() - i,
        {
            proof {
                assert(self.entities@.take(i + 1).drop_last() =~= self.entities@.take(i as int));
            }
            if let Some(e) = self.entities[i] {
                columns.push(e.row(i as u64));
            }
            i += 1;
        }
        proof {
            assert(self.entities@.take(i as int) =~= self.entities@);
        }
        let frame = NetworkFrame { tick: self.tick, entities: columns };
        self.tick = self.tick + 1;
        Some(frame)
    }
}

/// Every active connection has exactly one avatar: two live slots never
/// carry the same client id, and the roster names a different slot for each
/// connection.
pub proof fn one_avatar_per_connection(m: ServerModel)
    requires
        m.wf(),
    ensures
        forall|a: int, b: int|
            0 <= a < m.slots.len() && 0 <= b < m.slots.len() && (#[trigger] m.slots[a]) is Some
                && (#[trigger] m.slots[b]) is Some && m.slots[a]->0.id == m.slots[b]->0.id ==> a
                == b,
        forall|x: u64, y: u64|
            m.active(x) && m.active(y) && #[trigger] m.roster[x] == #[trigger] m.roster[y] ==> x
                == y,
{
    assert forall|x: u64, y: u64|
        m.active(x) && m.active(y) && #[trigger] m.roster[x] == #[trigger] m.roster[y] implies x
        == y by {
        assert(m.roster.contains_key(x));
        assert(m.roster.contains_key(y));
    }
}

/// Every transition keeps roster and slots in agreement.
pub proof fn transitions_keep_agreement(
    m: ServerModel,
    id: u64,
    input: PlayerInput,
    handle: u64,
    on_ground: bool,
    translation: Vec3,
    rotation: Quat,
    velocity: Vec3,
)
    requires
        m.wf(),
        m.slots.len() < u64::MAX,
    ensures
        m.connect(id).wf(),
        m.disconnect(id).wf(),
        m.stage(id, input).wf(),
        m.jump(handle, on_ground).wf(),
        m.motion(handle, translation, rotation, velocity).wf(),
{
    assert(m.connect(id).wf()) by {
        let after = m.connect(id);
        if !m.active(id) {
            assert forall|h: int|
                0 <= h < after.slots.len() && (#[trigger] after.slots[h]) is Some implies {
                &&& after.roster.contains_key(after.slots[h]->0.id)
                &&& after.roster[after.slots[h]->0.id] == h
            } by {
                if h < m.slots.len() {
                    assert(m.slots[h] is Some);
                }
            }
            assert forall|x: u64| #[trigger] after.roster.contains_key(x) implies {
                &&& after.roster[x] < after.slots.len()
                &&& after.slots[after.roster[x] as int] is Some
                &&& after.slots[after.roster[x] as int]->0.id == x
            } by {
                if x != id {
                    assert(m.roster.contains_key(x));
                }
            }
        }
    }
    assert(m.disconnect(id).wf()) by {
        let after = m.disconnect(id);
        if m.active(id) {
            assert(m.roster.contains_key(id));
        }
        assert forall|h: int|
            0 <= h < after.slots.len() && (#[trigger] after.slots[h]) is Some implies {
            &&& after.roster.contains_key(after.slots[h]->0.id)
            &&& after.roster[after.slots[h]->0.id] == h
        } by {
            assert(m.slots[h] is Some);
        }
        assert forall|x: u64| #[trigger] after.roster.contains_key(x) implies {
            &&& after.roster[x] < after.slots.len()
            &&& after.slots[after.roster[x] as int] is Some
            &&& after.slots[after.roster[x] as int]->0.id == x
        } by {
            assert(m.roster.contains_key(x));
        }
    }
    assert(m.stage(id, input).wf()) by {
        let after = m.stage(id, input);
        if m.active(id) {
            assert(m.roster.contains_key(id));
        }
        lemma_rewrite_keeps_agreement(m, after);
    }
    assert(m.jump(handle, on_ground).wf()) by {
        lemma_rewrite_keeps_agreement(m, m.jump(handle, on_ground));
    }
    assert(m.motion(handle, translation, rotation, velocity).wf()) by {
        lemma_rewrite_keeps_agreement(m, m.motion(handle, translation, rotation, velocity));
    }
}

/// A state that differs from a well-formed one only in what live avatars
/// hold besides their id is well-formed too.
proof fn lemma_rewrite_keeps_agreement(m: ServerModel, after: ServerModel)
    requires
        m.wf(),
        after.roster == m.roster,
        after.slots.len() == m.slots.len(),
        forall|h: int|
            0 <= h < m.slots.len() ==> (#[trigger] after.slots[h] is Some) == (m.slots[h] is Some),
        forall|h: int|
            0 <= h < m.slots.len() && (#[trigger] after.slots[h]) is Some ==> after.slots[h]->0.id
                == m.slots[h]->0.id,
    ensures
        after.wf(),
{
    assert forall|h: int|
        0 <= h < after.slots.len() && (#[trigger] after.slots[h]) is Some implies {
        &&& after.roster.contains_key(after.slots[h]->0.id)
        &&& after.roster[after.slots[h]->0.id] == h
    } by {
        assert(m.slots[h] is Some);
    }
    assert forall|x: u64| #[trigger] after.roster.contains_key(x) implies {
        &&& after.roster[x] < after.slots.len()
        &&& after.slots[after.roster[x] as int] is Some
        &&& after.slots[after.roster[x] as int]->0.id == x
    } by {
        assert(m.roster.contains_key(x));
    }
}

/// Two avatars that agree in everything but the input staged on them.
pub open spec fn same_but_input(a: PlayerEntity, b: PlayerEntity) -> bool {
    a == (PlayerEntity { input: a.input, ..b })
}

/// Input records change nothing but the input staged on the sender's own
/// avatar.
pub proof fn inputs_touch_only_their_avatar(
    m: ServerModel,
    id: u64,
    inputs: Seq<Option<PlayerInput>>,
)
    requires
        m.wf(),
    ensures
        m.stage_all(id, inputs).wf(),
        m.stage_all(id, inputs).roster == m.roster,
        m.stage_all(id, inputs).tick == m.tick,
        m.stage_all(id, inputs).slots.len() == m.slots.len(),
        forall|h: int|
            0 <= h < m.slots.len() && !(m.active(id) && h == m.roster[id]) ==> m.stage_all(
                id,
                inputs,
            ).slots[h] == m.slots[h],
        m.active(id) ==> {
            &&& m.stage_all(id, inputs).slots[m.roster[id] as int] is Some
            &&& same_but_input(
                m.stage_all(id, inputs).slots[m.roster[id] as int]->0,
                m.slots[m.roster[id] as int]->0,
            )
        },
        !m.active(id) ==> m.stage_all(id, inputs) == m,
    decreases inputs.len(),
{
    if m.active(id) {
        assert(m.roster.contains_key(id));
    }
    if inputs.len() > 0 {
        let head = inputs.drop_last();
        inputs_touch_only_their_avatar(m, id, head);
        let mid = m.stage_all(id, head);
        if inputs.last() is Some {
            lemma_rewrite_keeps_agreement(mid, mid.stage(id, inputs.last()->0));
        }
    }
}

/// Of the input records that arrive from a connection before a step, only
/// the last one that could be decoded counts: the state is what it would be
/// had that record arrived alone.
pub proof fn last_input_wins(m: ServerModel, id: u64, inputs: Seq<Option<PlayerInput>>)
    requires
        m.wf(),
    ensures
        inputs.len() > 0 && inputs.last() is Some ==> m.stage_all(id, inputs) == m.stage(
            id,
            inputs.last()->0,
        ),
        inputs.len() > 0 && inputs.last() is None ==> m.stage_all(id, inputs) == m.stage_all(
            id,
            inputs.drop_last(),
        ),
{
    if inputs.len() > 0 && inputs.last() is Some {
        let head = inputs.drop_last();
        inputs_touch_only_their_avatar(m, id, head);
        let mid = m.stage_all(id, head);
        let input = inputs.last()->0;
        if m.active(id) {
            assert(m.roster.contains_key(id));
            assert(mid.roster.contains_key(id));
        }
        assert(mid.stage(id, input).slots =~= m.stage(id, input).slots);
    }
}

/// A connection that comes and goes leaves no trace but an empty slot: the
/// roster is as before, the newcomer was announced to everyone last of all,
/// and its handle is never given out again.
pub proof fn connect_then_disconnect(m: ServerModel, id: u64)
    requires
        m.wf(),
        m.slots.len() < u64::MAX,
        !m.active(id),
    ensures
        m.connect(id).active(id),
        m.connect(id).avatar(id) == Some(PlayerEntity::spec_spawn(id)),
        m.connect_out(id).last() == creation(m.slots.len() as u64, id),
        !m.connect(id).disconnect(id).active(id),
        m.connect(id).disconnect(id).roster == m.roster,
        m.connect(id).disconnect(id).slots == m.slots.push(None),
        m.connect(id).disconnect(id).tick == m.tick,
{
    let there = m.connect(id);
    let gone = there.disconnect(id);
    assert(gone.roster =~= m.roster);
    assert(gone.slots =~= m.slots.push(None));
}

/// Commands do not reach the state: two inboxes that differ only in their
/// commands, such as one in which a command was delivered twice, drain to
/// the same state.
pub proof fn commands_change_nothing(m: ServerModel, a: Inbox, b: Inbox)
    requires
        a.client_id == b.client_id,
        a.inputs@ == b.inputs@,
    ensures
        m.drain(seq![a]) == m.drain(seq![b]),
{
    assert(seq![a].drop_last() =~= Seq::<Inbox>::empty());
    assert(seq![b].drop_last() =~= Seq::<Inbox>::empty());
    assert(seq![a].last() == a);
    assert(seq![b].last() == b);
    assert(m.drain(Seq::<Inbox>::empty()) == m);
}

/// The frame of a state holds one row for each live avatar and no other:
/// the live handles in increasing order.
pub proof fn frame_rows_follow_live_handles(slots: Seq<Option<PlayerEntity>>)
    requires
        slots.len() <= u64::MAX,
    ensures
        frame_rows(slots).len() == live_handles(slots).len(),
        forall|i: int|
            0 <= i < live_handles(slots).len() ==> {
                &&& 0 <= (#[trigger] live_handles(slots)[i]) < slots.len()
                &&& slots[live_handles(slots)[i] as int] is Some
                &&& frame_rows(slots)[i] == slots[live_handles(slots)[i] as int]->0.spec_row(
                    live_handles(slots)[i],
                )
            },
        forall|i: int, j: int|
            0 <= i < j < live_handles(slots).len() ==> live_handles(slots)[i] < live_handles(
                slots,
            )[j],
    decreases slots.len(),
{
    if slots.len() > 0 {
        let head = slots.drop_last();
        frame_rows_follow_live_handles(head);
        assert forall|i: int| 0 <= i < live_handles(slots).len() implies {
            &&& 0 <= (#[trigger] live_handles(slots)[i]) < slots.len()
            &&& slots[live_handles(slots)[i] as int] is Some
            &&& frame_rows(slots)[i] == slots[live_handles(slots)[i] as int]->0.spec_row(
                live_handles(slots)[i],
            )
        } by {
            if i < live_handles(head).len() {
                assert(live_handles(slots)[i] == live_handles(head)[i]);
                assert(head[live_handles(head)[i] as int] == slots[live_handles(head)[i] as int]);
            }
        }
        assert forall|i: int, j: int| 0 <= i < j < live_handles(slots).len() implies live_handles(
            slots,
        )[i] < live_handles(slots)[j] by {
            assert(live_handles(slots)[i] == live_handles(head)[i]);
            if j < live_handles(head).len() {
                assert(live_handles(slots)[j] == live_handles(head)[j]);
            }
        }
    }
}

/// Every live avatar has its handle among the live handles, so that a
/// frame has a row for it and a newcomer is told of it.
pub proof fn every_live_avatar_is_listed(slots: Seq<Option<PlayerEntity>>, h: int)
    requires
        slots.len() <= u64::MAX,
        0 <= h < slots.len(),
        slots[h] is Some,
    ensures
        exists|i: int|
            0 <= i < live_handles(slots).len() && #[trigger] live_handles(slots)[i] == h as u64,
    decreases slots.len(),
{
    let head = slots.drop_last();
    if h == slots.len() - 1 {
        let i = live_handles(head).len() as int;
        assert(live_handles(slots)[i] == h as u64);
    } else {
        assert(head[h] == slots[h]);
        every_live_avatar_is_listed(head, h);
        let i = choose|i: int|
            0 <= i < live_handles(head).len() && #[trigger] live_handles(head)[i] == h as u64;
        assert(live_handles(slots)[i] == h as u64);
    }
}

/// The messages that bring a newcomer up to date tell it of each live
/// avatar once, in the order of the live handles.
pub proof fn introductions_follow_live_handles(slots: Seq<Option<PlayerEntity>>, client: u64)
    requires
        slots.len() <= u64::MAX,
    ensures
        introductions(slots, client).len() == live_handles(slots).len(),
        forall|i: int|
            0 <= i < live_handles(slots).len() ==> {
                &&& 0 <= (#[trigger] live_handles(slots)[i]) < slots.len()
                &&& slots[live_handles(slots)[i] as int] is Some
                &&& introductions(slots, client)[i] == (Outgoing::To {
                    client,
                    message: ServerMessages::PlayerCreate {
                        entity: live_handles(slots)[i],
                        id: slots[live_handles(slots)[i] as int]->0.id,
                        translation: slots[live_handles(slots)[i] as int]->0.translation,
                    },
                })
            },
    decreases slots.len(),
{
    if slots.len() > 0 {
        let head = slots.drop_last();
        introductions_follow_live_handles(head, client);
        assert forall|i: int| 0 <= i < live_handles(slots).len() implies {
            &&& 0 <= (#[trigger] live_handles(slots)[i]) < slots.len()
            &&& slots[live_handles(slots)[i] as int] is Some
            &&& introductions(slots, client)[i] == (Outgoing::To {
                client,
                message: ServerMessages::PlayerCreate {
                    entity: live_handles(slots)[i],
                    id: slots[live_handles(slots)[i] as int]->0.id,
                    translation: slots[live_handles(slots)[i] as int]->0.translation,
                },
            })
        } by {
            if i < live_handles(head).len() {
                assert(live_handles(slots)[i] == live_handles(head)[i]);
                assert(head[live_handles(head)[i] as int] == slots[live_handles(head)[i] as int]);
            }
        }
    }
}

/// A frame names no avatar twice.
pub proof fn frame_names_each_avatar_once(slots: Seq<Option<PlayerEntity>>)
    requires
        slots.len() <= u64::MAX,
    ensures
        distinct_handles(frame_rows(slots)),
{
    frame_rows_follow_live_handles(slots);
    assert forall|i: int, j: int| 0 <= i < j < frame_rows(slots).len() implies frame_rows(
        slots,
    )[i].entity != frame_rows(slots)[j].entity by {
        assert(live_handles(slots)[i] < live_handles(slots)[j]);
    }
}

} // verus!
