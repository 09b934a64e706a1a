//! The wire vocabulary shared by client and server: channels, lifecycle
//! messages, input records and per-tick frames.
//!
//! Kinematic quantities are carried as IEEE-754 single-precision bit
//! patterns. Nothing here reads them as numbers: they are moved, stored and
//! compared bit for bit.

use vstd::prelude::*;

verus! {

/// Bit pattern of `0.0`.
pub const ZERO_BITS: u32 = 0;

/// Bit pattern of `1.0`.
pub const ONE_BITS: u32 = 0x3F80_0000;

/// Bit pattern of `-1.0`.
pub const NEG_ONE_BITS: u32 = 0xBF80_0000;

/// Identifier that every peer of one deployment must present.
pub const PROTOCOL_ID: u64 = 7;

/// Three single-precision components, as bit patterns.
#[derive(Clone, Copy, Debug, PartialEq, Eq, Structural)]
pub struct Vec3 {
    pub x: u32,
    pub y: u32,
    pub z: u32,
}

/// A rotation quaternion, as four bit patterns in the order x, y, z, w.
#[derive(Clone, Copy, Debug, PartialEq, Eq, Structural)]
pub struct Quat {
    pub x: u32,
    pub y: u32,
    pub z: u32,
    pub w: u32,
}

/// An aim ray: where it starts and where it points.
#[derive(Clone, Copy, Debug, PartialEq, Eq, Structural)]
pub struct Ray {
    pub origin: Vec3,
    pub direction: Vec3,
}

impl Vec3 {
    /// The vector whose components are all `0.0`.
    pub open spec fn spec_zero() -> Vec3 {
        Vec3 { x: ZERO_BITS, y: ZERO_BITS, z: ZERO_BITS }
    }

    /// The vector whose components are all `0.0`.
    #[verifier::when_used_as_spec(spec_zero)]
    pub fn zero() -> (v: Vec3)
        ensures
            v == Vec3::spec_zero(),
    {
        Vec3 { x: ZERO_BITS, y: ZERO_BITS, z: ZERO_BITS }
    }
}

impl Quat {
    /// The rotation that turns nothing: `(0, 0, 0, 1)`.
    pub open spec fn spec_identity() -> Quat {
        Quat { x: ZERO_BITS, y: ZERO_BITS, z: ZERO_BITS, w: ONE_BITS }
    }

    /// The rotation that turns nothing: `(0, 0, 0, 1)`.
    #[verifier::when_used_as_spec(spec_identity)]
    pub fn identity() -> (q: Quat)
        ensures
            q == Quat::spec_identity(),
    {
        Quat { x: ZERO_BITS, y: ZERO_BITS, z: ZERO_BITS, w: ONE_BITS }
    }
}

/// The highest frame tick that a client has accepted so far.
#[derive(Clone, Copy, Debug, PartialEq, Eq)]
pub struct MostRecentTick(pub Option<u32>);

/// A discrete one-shot request of a player.
#[derive(Clone, Copy, Debug, PartialEq, Eq, Structural)]
pub enum PlayerCommand {
    BasicAttack { cast_at: Vec3 },
}

/// What one player wants for one tick.
#[derive(Clone, Copy, Debug, PartialEq, Eq)]
pub struct PlayerInput {
    pub forward: u32,
    pub right: u32,
    pub jump: bool,
    pub aim_ray: Ray,
    pub most_recent_tick: Option<u32>,
}

impl PlayerInput {
    /// No motion wanted, no jump pending, a zero aim ray, no tick seen.
    pub open spec fn spec_neutral() -> PlayerInput {
        PlayerInput {
            forward: ZERO_BITS,
            right: ZERO_BITS,
            jump: false,
            aim_ray: Ray { origin: Vec3::spec_zero(), direction: Vec3::spec_zero() },
            most_recent_tick: None,
        }
    }

    /// No motion wanted, no jump pending, a zero aim ray, no tick seen.
    #[verifier::when_used_as_spec(spec_neutral)]
    pub fn neutral() -> (input: PlayerInput)
        ensures
            input == PlayerInput::spec_neutral(),
    {
        PlayerInput {
            forward: ZERO_BITS,
            right: ZERO_BITS,
            jump: false,
            aim_ray: Ray { origin: Vec3::zero(), direction: Vec3::zero() },
            most_recent_tick: None,
        }
    }
}

impl Default for PlayerInput {
    fn default() -> (input: PlayerInput)
        ensures
            input == PlayerInput::spec_neutral(),
    {
        PlayerInput::neutral()
    }
}

/// Lifecycle events, sent reliably and in order from server to client.
#[derive(Clone, Copy, Debug, PartialEq, Eq, Structural)]
pub enum ServerMessages {
    PlayerCreate { entity: u64, id: u64, translation: Vec3 },
    PlayerRemove { id: u64 },
}

/// Index-aligned columns, one row per networked entity.
#[derive(Clone, Debug, PartialEq, Eq)]
pub struct NetworkedEntities {
    pub entities: Vec<u64>,
    pub translations: Vec<Vec3>,
    pub rotations: Vec<Quat>,
    pub velocities: Vec<Vec3>,
    pub groundeds: Vec<bool>,
}

/// The state of one entity as a frame carries it.
#[derive(Clone, Copy, Debug, PartialEq, Eq, Structural)]
pub struct EntityRow {
    pub entity: u64,
    pub translation: Vec3,
    pub rotation: Quat,
    pub velocity: Vec3,
    pub grounded: bool,
}

impl NetworkedEntities {
    /// All five columns have the same length.
    pub open spec fn aligned(&self) -> bool {
        &&& self.translations@.len() == self.entities@.len()
        &&& self.rotations@.len() == self.entities@.len()
        &&& self.velocities@.len() == self.entities@.len()
        &&& self.groundeds@.len() == self.entities@.len()
    }

    /// Row `i`, read across the columns.
    pub open spec fn row(&self, i: int) -> EntityRow
        recommends
            self.aligned(),
            0 <= i < self.entities@.len(),
    {
        EntityRow {
            entity: self.entities@[i],
            translation: self.translations@[i],
            rotation: self.rotations@[i],
            velocity: self.velocities@[i],
            grounded: self.groundeds@[i],
        }
    }

    /// The rows in order; empty where the columns are not aligned.
    pub open spec fn rows(&self) -> Seq<EntityRow> {
        if self.aligned() {
            Seq::new(self.entities@.len(), |i: int| self.row(i))
        } else {
            Seq::empty()
        }
    }

    /// A set of columns without rows: every one of the five columns is
    /// empty.
    pub fn new() -> (columns: NetworkedEntities)
        ensures
            columns.entities@ == Seq::<u64>::empty(),
            columns.translations@ == Seq::<Vec3>::empty(),
            columns.rotations@ == Seq::<Quat>::empty(),
            columns.velocities@ == Seq::<Vec3>::empty(),
            columns.groundeds@ == Seq::<bool>::empty(),
            columns.aligned(),
            columns.rows() == Seq::<EntityRow>::empty(),
    {
        let columns = NetworkedEntities {
            entities: Vec::new(),
            translations: Vec::new(),
            rotations: Vec::new(),
            velocities: Vec::new(),
            groundeds: Vec::new(),
        };
        assert(columns.rows() =~= Seq::<EntityRow>::empty());
        columns
    }

    /// Whether all five columns have the same length.
    pub fn is_aligned(&self) -> (ok: bool)
        ensures
            ok == self.aligned(),
    {
        let n = self.entities.len();
        self.translations.len() == n && self.rotations.len() == n && self.velocities.len() == n
            && self.groundeds.len() == n
    }

    /// How many rows aligned columns hold.
    pub fn len(&self) -> (n: usize)
        ensures
            n == self.entities@.len(),
            self.aligned() ==> n == self.rows().len(),
    {
        self.entities.len()
    }

    /// Appends one row across the columns.
    pub fn push(&mut self, row: EntityRow)
        requires
            old(self).aligned(),
        ensures
            final(self).aligned(),
            final(self).rows() == old(self).rows().push(row),
    {
        self.entities.push(row.entity);
        self.translations.push(row.translation);
        self.rotations.push(row.rotation);
        self.velocities.push(row.velocity);
        self.groundeds.push(row.grounded);
        assert(self.rows() =~= old(self).rows().push(row));
    }

    /// Row `i` of aligned columns.
    pub fn get(&self, i: usize) -> (row: EntityRow)
        requires
            self.aligned(),
            i < self.entities@.len(),
        ensures
            row == self.rows()[i as int],
    {
        EntityRow {
            entity: self.entities[i],
            translation: self.translations[i],
            rotation: self.rotations[i],
            velocity: self.velocities[i],
            grounded: self.groundeds[i],
        }
    }
}

impl Default for NetworkedEntities {
    fn default() -> (columns: NetworkedEntities)
        ensures
            columns.aligned(),
            columns.rows() == Seq::<EntityRow>::empty(),
    {
        NetworkedEntities::new()
    }
}

/// One broadcast of world state: the tick it was taken at and every
/// networked entity's row.
#[derive(Clone, Debug, PartialEq, Eq)]
pub struct NetworkFrame {
    pub tick: u32,
    pub entities: NetworkedEntities,
}

/// Channels that carry traffic from client to server.
#[derive(Clone, Copy, Debug, PartialEq, Eq, Structural)]
pub enum ClientChannel {
    Input,
    Command,
}

/// Channels that carry traffic from server to client.
#[derive(Clone, Copy, Debug, PartialEq, Eq, Structural)]
pub enum ServerChannel {
    ServerMessages,
    NetworkFrame,
}

/// How a channel delivers.
#[derive(Clone, Copy, Debug, PartialEq, Eq, Structural)]
pub enum Delivery {
    /// Every message arrives, in order; an unacknowledged one is sent again
    /// after this many milliseconds.
    Reliable { resend_millis: u64 },
    /// A message may be lost; nothing is sent again.
    Unreliable,
}

/// One channel of a connection: its number on the wire and how it delivers.
#[derive(Clone, Copy, Debug, PartialEq, Eq, Structural)]
pub struct ChannelSpec {
    pub channel_id: u8,
    pub delivery: Delivery,
}

/// The channels of one end of a connection.
#[derive(Clone, Debug, PartialEq, Eq)]
pub struct ConnectionSpec {
    pub send_channels: Vec<ChannelSpec>,
    pub receive_channels: Vec<ChannelSpec>,
}

impl ClientChannel {
    /// The channel's number on the wire.
    pub open spec fn spec_id(&self) -> u8 {
        match self {
            ClientChannel::Input => 0u8,
            ClientChannel::Command => 1u8,
        }
    }

    /// The channel's number on the wire.
    #[verifier::when_used_as_spec(spec_id)]
    pub fn id(&self) -> (n: u8)
        ensures
            n == self.spec_id(),
    {
        match self {
            ClientChannel::Input => 0,
            ClientChannel::Command => 1,
        }
    }

    /// The client-to-server channels.
    pub open spec fn spec_channels() -> Seq<ChannelSpec> {
        seq![
            ChannelSpec {
                channel_id: ClientChannel::Input.spec_id(),
                delivery: Delivery::Reliable { resend_millis: 0 },
            },
            ChannelSpec {
                channel_id: ClientChannel::Command.spec_id(),
                delivery: Delivery::Reliable { resend_millis: 0 },
            },
        ]
    }

    /// The client-to-server channels: input and commands, both reliable and
    /// resent without delay.
    pub fn channels_config() -> (channels: Vec<ChannelSpec>)
        ensures
            channels@ == ClientChannel::spec_channels(),
    {
        let mut channels: Vec<ChannelSpec> = Vec::new();
        channels.push(
            ChannelSpec {
                channel_id: ClientChannel::Input.id(),
                delivery: Delivery::Reliable { resend_millis: 0 },
            },
        );
        channels.push(
            ChannelSpec {
                channel_id: ClientChannel::Command.id(),
                delivery: Delivery::Reliable { resend_millis: 0 },
            },
        );
        assert(channels@ =~= ClientChannel::spec_channels());
        channels
    }
}

impl ServerChannel {
    /// The channel's number on the wire.
    pub open spec fn spec_id(&self) -> u8 {
        match self {
            ServerChannel::NetworkFrame => 0u8,
            ServerChannel::ServerMessages => 1u8,
        }
    }

    /// The channel's number on the wire.
    #[verifier::when_used_as_spec(spec_id)]
    pub fn id(&self) -> (n: u8)
        ensures
            n == self.spec_id(),
    {
        match self {
            ServerChannel::NetworkFrame => 0,
            ServerChannel::ServerMessages => 1,
        }
    }

    /// The server-to-client channels.
    pub open spec fn spec_channels() -> Seq<ChannelSpec> {
        seq![
            ChannelSpec {
                channel_id: ServerChannel::NetworkFrame.spec_id(),
                delivery: Delivery::Unreliable,
            },
            ChannelSpec {
                channel_id: ServerChannel::ServerMessages.spec_id(),
                delivery: Delivery::Reliable { resend_millis: 200 },
            },
        ]
    }

    /// The server-to-client channels: frames unreliable, lifecycle messages
    /// reliable and resent after 200 ms.
    pub fn channels_config() -> (channels: Vec<ChannelSpec>)
        ensures
            channels@ == ServerChannel::spec_channels(),
    {
        let mut channels: Vec<ChannelSpec> = Vec::new();
        channels.push(
            ChannelSpec {
                channel_id: ServerChannel::NetworkFrame.id(),
                delivery: Delivery::Unreliable,
            },
        );
        channels.push(
            ChannelSpec {
                channel_id: ServerChannel::ServerMessages.id(),
                delivery: Delivery::Reliable { resend_millis: 200 },
            },
        );
        assert(channels@ =~= ServerChannel::spec_channels());
        channels
    }
}

/// The client's end: it sends on the client channels and receives on the
/// server's.
pub fn client_connection_config() -> (spec: ConnectionSpec)
    ensures
        spec.send_channels@ == ClientChannel::spec_channels(),
        spec.receive_channels@ == ServerChannel::spec_channels(),
{
    ConnectionSpec {
        send_channels: ClientChannel::channels_config(),
        receive_channels: ServerChannel::channels_config(),
    }
}

/// The server's end: it sends on the server channels and receives on the
/// client's.
pub fn server_connection_config() -> (spec: ConnectionSpec)
    ensures
        spec.send_channels@ == ServerChannel::spec_channels(),
        spec.receive_channels@ == ClientChannel::spec_channels(),
{
    ConnectionSpec {
        send_channels: ServerChannel::channels_config(),
        receive_channels: ClientChannel::channels_config(),
    }
}

/// The messages of an inbox that could be decoded, in arrival order.
pub open spec fn decoded<T>(inbox: Seq<Option<T>>) -> Seq<T>
    decreases inbox.len(),
{
    if inbox.len() == 0 {
        Seq::empty()
    } else {
        match inbox.last() {
            Some(message) => decoded(inbox.drop_last()).push(message),
            None => decoded(inbox.drop_last()),
        }
    }
}

/// No two rows name the same entity.
pub open spec fn distinct_handles(rows: Seq<EntityRow>) -> bool {
    forall|i: int, j: int| 0 <= i < j < rows.len() ==> rows[i].entity != rows[j].entity
}

} // verus!
