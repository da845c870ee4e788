//! Disk-backed, time-to-live response cache for a weather API client: the
//! rules that decide where an entry lives, when it is still good, and what a
//! read, a write or a purge must do to the cache tree.

pub mod config;
pub mod expiry;
pub mod fetch;
pub mod indices;
pub mod json;
pub mod key;
pub mod layout;
pub mod lookup;
pub mod model;
pub mod plan;
pub mod points;
pub mod purge;
pub mod write;
