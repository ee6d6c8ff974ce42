//! A relay hub for live text messages.
//!
//! Clients hold a persistent connection each. Every text that one of them
//! sends is handed to the durable store and pushed to every connection that
//! is registered at that moment, the sender included.
//!
//! The crate is the deciding part of such a server: which connections are
//! registered ([`registry`]), which pushes a text calls for
//! ([`broadcaster`]), what a client session does with each event of its
//! transport ([`session`]) and how a request is answered once the store has
//! spoken ([`surface`]). Nothing here touches a socket or a database: every
//! function takes plain values and returns the work to be done as plain
//! values, so each of them is stated and proved for all inputs.

pub mod registry;
pub mod broadcaster;
pub mod models;
pub mod session;
pub mod surface;
