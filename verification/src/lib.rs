//! A verified model of a guild-scoped configuration and record store.
//!
//! Every piece of data is scoped to a guild (a 64-bit community identifier).
//! Settings entities (log, automod, ticket settings) keep at most one row per
//! guild and are managed through an atomic upsert. History entities (warns,
//! tickets) are append-only sequences of timestamped records per
//! (guild, subject) pair, read back as "the most recent N" and deleted one at
//! a time from the newest end. Store faults are translated into a small,
//! closed error taxonomy.

pub mod errors;
pub mod guild_service;
pub mod history;
pub mod laws;
pub mod logs_service;
pub mod models;
pub mod moderation_service;
pub mod tickets_service;
