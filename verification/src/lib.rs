//! Core of a push-based ("dead man's switch") uptime monitor.
//!
//! Remote devices send periodic heartbeats; the server tracks, per monitored
//! entity, whether it is currently reachable, and composes notifications when
//! a heartbeat is missed or a recovery occurs.  This crate holds the verified
//! core: the heartbeat state machine, the registry of entities and its lookup
//! indices, the deadline scheduler's cycle computation, the per-principal
//! token-bucket rate limiter, the authenticator, the notification fan-out,
//! and the elapsed-duration formatter.  Transport, persistence and delivery
//! live outside this crate and hand plain values in and out.

pub mod actions;
pub mod auth;
pub mod dispatch;
pub mod entity;
pub mod format;
pub mod heartbeat;
pub mod limiter;
pub mod scheduler;
pub mod store;
pub mod text;
