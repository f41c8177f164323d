//! Core of a load-balancing reverse proxy: the upstream registry, the active
//! health checker, the per-client rate limiter and the per-connection control
//! loop, each as verified decisions over plain values. Sockets, timers and the
//! wire format stay with the caller, which performs the actions these
//! functions ask for and reports back what happened.
//!
//! Beside the proxy stands the reading side of a small debugger front end:
//! its commands, breakpoint addresses and session.

pub mod debugger;
pub mod handler;
pub mod health;
pub mod random;
pub mod rate;
pub mod state;
pub mod upstream;
