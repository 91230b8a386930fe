//! Session-broker decisions: the device actor's subscriber and session lifecycle, operation
//! outcomes, connect retry, connection routing and readiness gating.
//!
//! Each function takes what the broker's runtime (sockets, the Bluetooth transport, the MAP/PBAP
//! sessions, timers) would observe and says what it would do; that runtime is not part of this
//! crate.
pub mod actor;
pub mod dispatch;
pub mod handler;
pub mod policy;
pub mod server;
pub mod wire;
