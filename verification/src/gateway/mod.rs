//! What the gateway's HTTP routes take in.

pub mod push_routes;
pub mod whatsapp_routes;
