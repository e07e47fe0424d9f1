//! Lifecycle and state-synchronization core for a networked scene demo.
//!
//! The crate models three cooperating pieces: a scene graph whose objects
//! are mutated through an explicit begin-update / commit ("sync") protocol,
//! a lifecycle dispatcher that delivers classified events to a game handler
//! and polls its exit flag once per tick, and a fan-out server that tracks
//! per-peer connection lifecycles and emits at most one `Connected` and one
//! `Disconnected` event per peer, with `Data` only in between.

pub mod dispatcher;
pub mod events;
pub mod fanout;
pub mod game;
pub mod scene;
