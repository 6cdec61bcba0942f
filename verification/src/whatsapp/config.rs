//! WhatsApp Web account configuration.

use vstd::prelude::*;

verus! {

/// Configuration for a WhatsApp Web account (via a sidecar).
#[derive(Debug, Clone)]
pub struct WhatsAppConfig {
    /// Directory to store authentication state (optional).
    pub auth_dir: Option<String>,
    /// Allowlist of phone numbers that can interact with the bot (empty =
    /// allow all).
    pub allowlist: Vec<String>,
    /// Default model to use for this channel account.
    pub model: Option<String>,
    /// Whether to auto-mark messages as read.
    pub auto_read: bool,
}

/// Messages are marked as read unless the configuration says otherwise.
pub fn default_auto_read() -> (r: bool)
    ensures
        r,
{
    true
}

impl Default for WhatsAppConfig {
    fn default() -> (c: WhatsAppConfig)
        ensures
            c.auth_dir.is_none(),
            c.allowlist@.len() == 0,
            c.model.is_none(),
            c.auto_read,
    {
        WhatsAppConfig {
            auth_dir: None,
            allowlist: Vec::new(),
            model: None,
            auto_read: default_auto_read(),
        }
    }
}

} // verus!
