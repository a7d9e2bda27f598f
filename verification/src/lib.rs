//! Verified core of an LDAP availability monitor: configuration model,
//! per-target status bookkeeping, health classification and the decisions
//! taken while probing a directory server.

pub mod api;
pub mod config;
pub mod health;
pub mod monitor;
pub mod probe;
pub mod status;
pub mod text;
pub mod time;
