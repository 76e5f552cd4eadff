//! Authentication and authorization core of a dashboard backend.
//!
//! The crate covers credential verification (password and time-based
//! one-time codes), encrypted-secret management, the session lifecycle
//! (issuance, validation, refresh rotation, expiry), and a permission
//! graph with grant and revoke edges, all evaluated against an
//! in-memory record store that mirrors the backing database.

pub mod account;
pub mod authz;
pub mod crypto;
pub mod error;
pub mod hook;
pub mod id;
pub mod page;
pub mod routes;
pub mod session;
pub mod store;
pub mod task;
pub mod totp;
