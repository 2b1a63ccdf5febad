//! A real-time connection registry and message fan-out hub for a chat
//! service: a directory of live client sessions, each identified by a unique
//! session id and owning an outbound delivery queue, used to broadcast an
//! incoming text message from one client to every other connected client.
//!
//! The hub itself is plain data with verified contracts; the transport layer
//! (websocket upgrade, network reads and writes) and the task scheduling
//! around it live outside this crate and drive the hub through the
//! connection lifecycle state machine.

pub mod frame;
pub mod ids;
pub mod laws;
pub mod lifecycle;
pub mod queue;
pub mod registry;
pub mod tag;
