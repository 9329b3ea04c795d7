//! Core engine of a group-message sender: routing of an incoming message to
//! destinations on two messaging backends, per-destination delivery tracking
//! with guarded status transitions, a retry-with-timeout send loop, a
//! per-backend serialized job scheduler with cancellation, and a link
//! lifecycle state machine.

pub mod destination;
pub mod format;
pub mod history;
pub mod ingest;
pub mod lifecycle;
pub mod observable;
pub mod record;
pub mod render;
pub mod retry;
pub mod routing;
pub mod scheduler;
pub mod send_mode;

pub use destination::Key;
pub use send_mode::SendMode;
