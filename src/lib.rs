//! Synchronization core of an authoritative multiplayer game simulation:
//! network identities, connection liveness, buffered player input,
//! monster spawn scheduling and the server/client world bridge.

pub mod components;
pub mod net_identity;
pub mod connections;
pub mod actions;
pub mod spawn;
pub mod messages;
pub mod server;
pub mod client;
pub mod states;
