//! WhatsApp Web accounts, reached through a sidecar process.

pub mod access;
pub mod config;
pub mod outbound;
pub mod plugin;
pub mod sidecar;
pub mod types;
