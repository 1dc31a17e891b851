//! Tenant-scoped configuration settings, typed by registered type
//! identifiers and governed by per-type policy: inheritance down the tenant
//! hierarchy, overwrite permission, compliance locks, retention of deleted
//! values, and targeting of audit and notification events.
pub mod external;
pub mod model;
pub mod error;
pub mod validation;
pub mod hierarchy;
pub mod table;
pub mod store;
pub mod events;
pub mod service;
pub mod laws;
pub mod config;
pub mod dto;
