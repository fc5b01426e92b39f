//! A small multi-user file-hosting core: credential storage with salted
//! password hashing, signed time-bounded session tokens, an auth gate that
//! resolves bearer tokens to users, and an owner-scoped file store fed by a
//! size-limited upload pipeline.

pub mod auth;
pub mod config;
pub mod decimal;
pub mod errors;
pub mod files;
pub mod hashing;
pub mod models;
pub mod token;
