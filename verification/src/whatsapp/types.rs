//! Types for communication with the WhatsApp sidecar.

use vstd::prelude::*;

verus! {

/// Messages sent to the sidecar.
#[derive(Debug, Clone)]
#[allow(inconsistent_fields)]
pub enum GatewayMessage {
    Login { account_id: String, auth_dir: Option<String> },
    Logout { account_id: String },
    Status { account_id: Option<String> },
    SendText { account_id: String, to: String, text: String, request_id: String },
    SendMedia {
        account_id: String,
        to: String,
        media_url: String,
        media_type: String,
        caption: Option<String>,
        request_id: String,
    },
    SendReaction {
        account_id: String,
        chat_jid: String,
        message_id: String,
        emoji: String,
        request_id: String,
    },
    SendTyping { account_id: String, to: String },
    MarkRead { account_id: String, chat_jid: String, message_ids: Vec<String> },
}

/// Messages received from the sidecar. The time stamp of an inbound
/// message is not kept.
#[derive(Debug, Clone)]
#[allow(inconsistent_fields)]
pub enum SidecarMessage {
    Qr { account_id: String, qr: String },
    Connected { account_id: String, phone_number: Option<String> },
    Disconnected { account_id: String, reason: String },
    LoggedOut { account_id: String },
    InboundMessage {
        account_id: String,
        message_id: String,
        chat_jid: String,
        sender_jid: String,
        sender_name: Option<String>,
        is_group: bool,
        body: String,
        media_type: Option<String>,
        media_url: Option<String>,
        quoted_message_id: Option<String>,
        quoted_body: Option<String>,
    },
    SendResult { request_id: String, success: bool, message_id: Option<String>, error: Option<String> },
    StatusResponse { accounts: Vec<AccountStatus> },
    Error { account_id: Option<String>, error: String },
}

/// Account status from the sidecar.
#[derive(Debug, Clone)]
pub struct AccountStatus {
    pub account_id: String,
    pub connected: bool,
    pub phone_number: Option<String>,
    pub details: Option<String>,
}

/// Connection state for a WhatsApp account.
#[derive(Debug, Clone)]
pub enum ConnectionState {
    Disconnected,
    WaitingForQr,
    QrReceived(String),
    Connected { phone_number: Option<String> },
}

impl Default for ConnectionState {
    fn default() -> (s: ConnectionState)
        ensures
            s is Disconnected,
    {
        ConnectionState::Disconnected
    }
}

} // verus!
