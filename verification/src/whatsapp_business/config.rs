//! WhatsApp Business account configuration, without its secrets.

use crate::text::{chars_of, push_all, string_of};
use crate::whatsapp::access::{DmPolicy, GroupPolicy};
use vstd::prelude::*;

verus! {

/// Configuration for a single WhatsApp Business account. The access token
/// and the app secret are kept by whoever talks to the API.
#[derive(Debug, Clone)]
pub struct WhatsAppAccountConfig {
    /// WhatsApp Business Phone Number ID (from Meta Business Suite).
    pub phone_number_id: String,
    /// Webhook verification token (used during webhook registration).
    pub verify_token: String,
    /// WhatsApp Business Account ID (optional, for display purposes).
    pub business_account_id: Option<String>,
    /// DM access policy.
    pub dm_policy: DmPolicy,
    /// Group access policy (WhatsApp groups).
    pub group_policy: GroupPolicy,
    /// User/phone number allowlist for DMs.
    pub allowlist: Vec<String>,
    /// Group ID allowlist.
    pub group_allowlist: Vec<String>,
    /// Default model ID for this account's sessions.
    pub model: Option<String>,
    /// Provider name associated with `model`.
    pub model_provider: Option<String>,
    /// Base URL for the WhatsApp Cloud API. Defaults to the official Meta
    /// Graph API.
    pub api_base_url: Option<String>,
}

impl WhatsAppAccountConfig {
    /// The API base URL: the configured one, else the official Meta Graph
    /// API.
    pub open spec fn base_url_spec(&self) -> Seq<char> {
        match self.api_base_url {
            Some(url) => url@,
            None => "https://graph.facebook.com/v21.0"@,
        }
    }

    /// Get the API base URL, defaulting to the official Meta Graph API.
    pub fn api_base_url(&self) -> (url: &str)
        ensures
            url@ == self.base_url_spec(),
    {
        match &self.api_base_url {
            Some(url) => url.as_str(),
            None => "https://graph.facebook.com/v21.0",
        }
    }

    /// Build the messages API endpoint URL.
    pub fn messages_url(&self) -> (url: String)
        ensures
            url@ == self.base_url_spec() + "/"@ + self.phone_number_id@ + "/messages"@,
    {
        let mut out = chars_of(self.api_base_url());
        push_all(&mut out, &chars_of("/"));
        push_all(&mut out, &chars_of(self.phone_number_id.as_str()));
        push_all(&mut out, &chars_of("/messages"));
        string_of(&out)
    }

    /// Build the media API endpoint URL for downloading media.
    pub fn media_url(&self, media_id: &str) -> (url: String)
        ensures
            url@ == self.base_url_spec() + "/"@ + media_id@,
    {
        let mut out = chars_of(self.api_base_url());
        push_all(&mut out, &chars_of("/"));
        push_all(&mut out, &chars_of(media_id));
        string_of(&out)
    }
}

impl Default for WhatsAppAccountConfig {
    fn default() -> (c: WhatsAppAccountConfig)
        ensures
            c.phone_number_id@.len() == 0,
            c.verify_token@.len() == 0,
            c.business_account_id.is_none(),
            c.dm_policy == DmPolicy::Open,
            c.group_policy == GroupPolicy::Open,
            c.allowlist@.len() == 0,
            c.group_allowlist@.len() == 0,
            c.model.is_none(),
            c.model_provider.is_none(),
            c.api_base_url.is_none(),
    {
        WhatsAppAccountConfig {
            phone_number_id: String::new(),
            verify_token: String::new(),
            business_account_id: None,
            dm_policy: DmPolicy::Open,
            group_policy: GroupPolicy::Open,
            allowlist: Vec::new(),
            group_allowlist: Vec::new(),
            model: None,
            model_provider: None,
            api_base_url: None,
        }
    }
}

} // verus!
