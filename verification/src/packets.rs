//! The packets this server decodes and handles, and the responses it
//! serializes, grouped by protocol phase.
pub mod configuration;
pub mod handshake;
pub mod login;
pub mod play;
pub mod status;
