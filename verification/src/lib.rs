//! Verified core of the syntropctl administration client.
pub mod commands;
pub mod daemon;
pub mod error;
pub mod json;
pub mod ops;
pub mod render;
pub mod text;
pub mod varlink;
