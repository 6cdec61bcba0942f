//! Configuration of the browser client.

use crate::whatsapp_business::types::opt_view;
use vstd::prelude::*;

verus! {

/// Configuration for the browser client.
#[derive(Debug, Clone)]
pub struct WasmConfig {
    /// Backend gateway URL for API calls and WebSocket connections.
    pub backend_url: Option<String>,
    /// Default model to use for completions.
    pub default_model: Option<String>,
    /// Whether to persist sessions to IndexedDB.
    pub persist_sessions: bool,
}

impl WasmConfig {
    /// Create a new configuration with defaults.
    pub fn new() -> (c: WasmConfig)
        ensures
            c.backend_url.is_none(),
            c.default_model.is_none(),
            c.persist_sessions,
    {
        WasmConfig { backend_url: None, default_model: None, persist_sessions: true }
    }

    /// Set the backend gateway URL.
    pub fn set_backend_url(&mut self, url: String)
        ensures
            final(self).backend_url == Some(url),
            final(self).default_model == old(self).default_model,
            final(self).persist_sessions == old(self).persist_sessions,
    {
        self.backend_url = Some(url);
    }

    /// Get the backend gateway URL.
    pub fn get_backend_url(&self) -> (url: Option<String>)
        ensures
            opt_view(url) == opt_view(self.backend_url),
    {
        match &self.backend_url {
            Some(u) => Some(u.clone()),
            None => None,
        }
    }

    /// Set the default model.
    pub fn set_default_model(&mut self, model: String)
        ensures
            final(self).default_model == Some(model),
            final(self).backend_url == old(self).backend_url,
            final(self).persist_sessions == old(self).persist_sessions,
    {
        self.default_model = Some(model);
    }

    /// Get the default model.
    pub fn get_default_model(&self) -> (model: Option<String>)
        ensures
            opt_view(model) == opt_view(self.default_model),
    {
        match &self.default_model {
            Some(m) => Some(m.clone()),
            None => None,
        }
    }

    /// Enable or disable session persistence to IndexedDB.
    pub fn set_persist_sessions(&mut self, persist: bool)
        ensures
            final(self).persist_sessions == persist,
            final(self).backend_url == old(self).backend_url,
            final(self).default_model == old(self).default_model,
    {
        self.persist_sessions = persist;
    }

    /// Check if session persistence is enabled.
    pub fn get_persist_sessions(&self) -> (persist: bool)
        ensures
            persist == self.persist_sessions,
    {
        self.persist_sessions
    }
}

impl Default for WasmConfig {
    fn default() -> (c: WasmConfig)
        ensures
            c.backend_url.is_none(),
            c.default_model.is_none(),
            c.persist_sessions,
    {
        WasmConfig::new()
    }
}

} // verus!
