//! Movement synchronisation core of a client/server arena game: the wire
//! vocabulary, input sampling, the server's roster, tick and frames, and the
//! client's reconciliation of what the server reports.
//!
//! Kinematic quantities pass through this crate as bit patterns; the
//! arithmetic on them is done by the programs that use it.

pub mod animation;
pub mod client;
pub mod config;
pub mod networking;
pub mod player;
pub mod replication;
pub mod server;
pub mod table;
