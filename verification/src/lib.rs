//! Adapters behind an authentication bridge: accounts, groups, grants, sessions,
//! tokens, identity providers and configuration.
//!
//! Everything here is a computation on values. Files, sockets, the database
//! connection and the async runtime belong to the crate around this library.

pub mod accounts;
pub mod audit;
pub mod authz;
pub mod claims;
pub mod config;
pub mod device;
pub mod email;
pub mod encoding;
pub mod error;
pub mod idpregistry;
pub mod ids;
pub mod json;
pub mod memory;
pub mod model;
pub mod nesting;
pub mod oidc;
pub mod order;
pub mod permissions;
pub mod ranks;
pub mod repositories;
pub mod resource_id;
pub mod roles;
pub mod rs256;
pub mod sqlite;
pub mod staticidp;
pub mod table;
pub mod text;
pub mod time;
pub mod urls;
pub mod walk;
