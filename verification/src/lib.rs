//! A verified protocol engine for a Minecraft Java Edition server: the
//! binary codec for the wire's primitive and composite types, the
//! phase-scoped packet registry and its dispatch, the per-connection state
//! machine with its ordered outbound queue, and the tick scheduler's
//! keep-alive bookkeeping.
//!
//! The engine works on plain values: frame bytes come in, state changes
//! and outbound frames come out.  The host process around it owns the
//! sockets, the tasks, and the clock; it reads frames, calls
//! [`registry::process_frame`], and drains each connection's queue to a
//! dedicated writer.
pub mod codec;
pub mod connection;
pub mod data_types;
pub mod identifier;
pub mod packets;
pub mod position;
pub mod registry;
pub mod world;

pub use codec::DecodeError;
