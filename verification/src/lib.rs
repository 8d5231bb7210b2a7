//! Session orchestrator for a live multiplayer "find the object" game.
//!
//! The library owns one game session's lifecycle: lobby formation, countdown,
//! active round, scoring, and round/game end.  Every state mutation goes
//! through one validated transition function, and every state change is
//! fanned out to subscribed readers through a bounded drop-oldest hub.

pub mod hub;
pub mod laws;
pub mod machine;
pub mod models;
pub mod oracle;
pub mod scheduler;
pub mod scores;
pub mod session;
