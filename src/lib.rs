//! Adapter between a service manager's command-line control plane and a
//! typed model of its units, timers and execution history.
pub mod text;
pub mod json;
pub mod clock;
pub mod error;
pub mod executor;
pub mod schedule;
pub mod services;
pub mod timers;
pub mod journal;
pub mod log_reader;
pub mod watch;
pub mod handlers;
pub mod laws;
