//! The connection state machine, the connection registry, and the
//! decisions of the event loop.
pub mod address;
pub mod connection;
pub mod engine;
pub mod events;
