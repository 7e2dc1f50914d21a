//! Core of an exam-room scheduling service: a keyed in-memory store, the
//! synchronizer that mirrors a remote catalog into it, the engine that
//! allocates exam sessions, and the credential checks behind login.

pub mod allocation;
pub mod auth;
pub mod catalog;
pub mod chance;
pub mod config;
pub mod hashing;
pub mod person;
pub mod records;
pub mod rows;
pub mod session;
pub mod store;
pub mod sync;
pub mod table;
