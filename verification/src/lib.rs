//! Bridging logic between a local client, a remote task backend and a
//! long-running conversation engine: credential resolution, an ordered
//! session event queue, and aggregation of environment records.

pub mod account;
pub mod backend;
pub mod config;
pub mod credential;
pub mod discovery;
pub mod environments;
pub mod headers;
pub mod json;
pub mod overrides;
pub mod remotes;
pub mod row_order;
pub mod session;
pub mod tasks;
pub mod text;
pub mod version;
