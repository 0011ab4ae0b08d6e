//! A text-chat relay, without the sockets.
//!
//! A relay server accepts many clients, reads fixed-width frames from each and
//! sends every message it receives to all clients that are connected at that
//! moment. This crate holds the rules of that system: the frame codec, the
//! per-connection reader, the relay channel, the client registry with its
//! fan-out and pruning, and the interactive client's line handling. Sockets,
//! threads and the console stay with the caller, which reports what happened
//! on them as plain values and carries out the actions it is handed back.

pub mod channel;
pub mod client;
pub mod frame;
pub mod hub;
pub mod message;
pub mod outbound;
pub mod reader;
pub mod registry;
