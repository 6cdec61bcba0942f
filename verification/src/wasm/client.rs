//! The client that a browser page holds.

use crate::ids::random_uuid;
use crate::storage::{MemoryStorage, Storage};
use crate::wasm::config::WasmConfig;
use crate::whatsapp_business::types::opt_view;
use vstd::prelude::*;

verus! {

/// The main client for browser environments.
///
/// It can either connect to a backend gateway for full functionality, or
/// run on its own with limited features.
pub struct MoltisClient {
    config: WasmConfig,
    storage: MemoryStorage,
    session_id: Option<String>,
}

impl MoltisClient {
    /// The configuration of the client.
    pub closed spec fn config_spec(&self) -> WasmConfig {
        self.config
    }

    /// The id of the current session, if one was started.
    pub closed spec fn session_spec(&self) -> Option<Seq<char>> {
        opt_view(self.session_id)
    }

    /// What the client has stored.
    pub closed spec fn stored(&self) -> Map<Seq<char>, Seq<u8>> {
        self.storage.contents()
    }

    /// Create a new client with default configuration.
    pub fn new() -> (c: MoltisClient)
        ensures
            c.config_spec().backend_url.is_none(),
            c.config_spec().default_model.is_none(),
            c.config_spec().persist_sessions,
            c.session_spec().is_none(),
            c.stored() == Map::<Seq<char>, Seq<u8>>::empty(),
    {
        MoltisClient { config: WasmConfig::new(), storage: MemoryStorage::new(), session_id: None }
    }

    /// Create a new client with the given configuration.
    pub fn with_config(config: WasmConfig) -> (c: MoltisClient)
        ensures
            c.config_spec() == config,
            c.session_spec().is_none(),
            c.stored() == Map::<Seq<char>, Seq<u8>>::empty(),
    {
        MoltisClient { config, storage: MemoryStorage::new(), session_id: None }
    }

    /// Set the backend gateway URL.
    pub fn set_backend_url(&mut self, url: String)
        ensures
            final(self).config_spec().backend_url == Some(url),
            final(self).config_spec().default_model == old(self).config_spec().default_model,
            final(self).config_spec().persist_sessions == old(self).config_spec().persist_sessions,
            final(self).session_spec() == old(self).session_spec(),
            final(self).stored() == old(self).stored(),
    {
        self.config.set_backend_url(url);
    }

    /// Get the current backend URL.
    pub fn get_backend_url(&self) -> (url: Option<String>)
        ensures
            opt_view(url) == opt_view(self.config_spec().backend_url),
    {
        self.config.get_backend_url()
    }

    /// Check if the client is connected to a backend.
    pub fn has_backend(&self) -> (r: bool)
        ensures
            r == self.config_spec().backend_url.is_some(),
    {
        self.config.backend_url.is_some()
    }

    /// Get the current session ID.
    pub fn get_session_id(&self) -> (id: Option<String>)
        ensures
            opt_view(id) == self.session_spec(),
    {
        match &self.session_id {
            Some(s) => Some(s.clone()),
            None => None,
        }
    }

    /// Makes `session_id` the current session.
    pub fn enter_session(&mut self, session_id: String)
        ensures
            final(self).session_spec() == Some(session_id@),
            final(self).config_spec() == old(self).config_spec(),
            final(self).stored() == old(self).stored(),
    {
        self.session_id = Some(session_id);
    }

    /// Start a new session under a random UUID, and return its id.
    pub fn new_session(&mut self) -> (session_id: String)
        ensures
            session_id@.len() == 36,
            final(self).session_spec() == Some(session_id@),
            final(self).config_spec() == old(self).config_spec(),
            final(self).stored() == old(self).stored(),
    {
        let session_id = random_uuid();
        self.enter_session(session_id.clone());
        session_id
    }
}

impl Default for MoltisClient {
    fn default() -> (c: MoltisClient)
        ensures
            c.config_spec().backend_url.is_none(),
            c.session_spec().is_none(),
    {
        MoltisClient::new()
    }
}

} // verus!
