//! The browser client: its configuration, its session, and its errors.

pub mod client;
pub mod config;
pub mod error;
