//! WhatsApp Cloud API: the shapes of webhook payloads and of outbound
//! requests, and the splitting of long messages.

pub mod config;
pub mod outbound;
pub mod types;
