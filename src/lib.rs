//! Rate-limited CPU alerting: per-process cooldown bookkeeping, the decisions
//! of one polling tick, and the text of an alert.

pub mod percent;
pub mod table;
pub mod engine;
pub mod message;
pub mod cmdline;
