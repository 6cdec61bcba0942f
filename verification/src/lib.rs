//! The policy core of a multi-channel chat gateway, with machine-checked
//! contracts.
//!
//! The heart of the crate is the trusted-network egress proxy: allowlist
//! patterns ([`domain_pattern`]), the approval manager with its static and
//! per-session allowlists and its table of waiting requests
//! ([`domain_approval`], [`approval_laws`]), the parsing of what a proxy
//! client sends ([`network_proxy`]), and the life of one connection as a
//! state machine ([`proxy_connection`], [`proxy_laws`]).
//!
//! Around it stand the decisions of the channel adapters and clients: what
//! a reply makes the WhatsApp channels send ([`whatsapp`],
//! [`whatsapp_business`], [`reply`]), what the webhook routes answer
//! ([`gateway`]), the JSON that the Gemini API takes and gives
//! ([`gemini`], [`gemini_format`], [`gemini_stream`], [`json`],
//! [`model`]), key-value stores ([`storage`], [`keyed`]), and the browser
//! client's state ([`wasm`]). Nothing here does I/O: sockets, clocks and
//! HTTP belong to the caller.

pub mod approval_laws;
pub mod domain_approval;
pub mod domain_pattern;
pub mod gateway;
pub mod gemini;
pub mod gemini_format;
pub mod gemini_stream;
mod ids;
pub mod json;
pub mod keyed;
pub mod model;
pub mod network_proxy;
pub mod proxy_connection;
pub mod proxy_laws;
pub mod reply;
pub mod storage;
pub mod text;
pub mod wasm;
pub mod whatsapp;
pub mod whatsapp_business;
