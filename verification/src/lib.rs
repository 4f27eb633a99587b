//! Session control for an installer webhook: a registry of installation
//! sessions that records event logs, authenticates incoming events and
//! expires idle sessions.

pub mod auth;
pub mod clock;
pub mod config;
pub mod control;
pub mod event;
pub mod reply;
pub mod session;
pub mod text;
