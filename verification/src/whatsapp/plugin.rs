//! What the WhatsApp Web plugin decides: the health of an account, the
//! state a sidecar message puts an account in, and who may talk to it.

use crate::text::{chars_of, contains_text, occurs_in, push_all, string_of};
use crate::whatsapp::config::WhatsAppConfig;
use crate::whatsapp::types::{ConnectionState, SidecarMessage};
use crate::whatsapp_business::types::opt_view;
use vstd::prelude::*;

verus! {

/// The health of one account.
#[derive(Debug, Clone)]
pub struct ChannelHealthSnapshot {
    pub connected: bool,
    pub account_id: String,
    pub details: Option<String>,
}

/// The details that go with a connection state; an account that is not
/// known counts as disconnected.
pub open spec fn details_of(state: Option<ConnectionState>) -> Option<Seq<char>> {
    match state {
        Some(ConnectionState::Connected { phone_number }) => match phone_number {
            Some(p) => Some("Phone: "@ + p@),
            None => None,
        },
        Some(ConnectionState::QrReceived(_)) => Some("waiting for QR code scan"@),
        Some(ConnectionState::WaitingForQr) => Some("generating QR code"@),
        Some(ConnectionState::Disconnected) => Some("disconnected"@),
        None => Some("disconnected"@),
    }
}

/// The health of an account in the given state.
pub fn probe(account_id: &str, state: Option<&ConnectionState>) -> (snapshot:
    ChannelHealthSnapshot)
    ensures
        snapshot.account_id@ == account_id@,
        snapshot.connected == (state matches Some(ConnectionState::Connected { .. })),
        opt_view(snapshot.details) == details_of(
            match state {
                Some(s) => Some(*s),
                None => None,
            },
        ),
{
    match state {
        Some(ConnectionState::Connected { phone_number }) => ChannelHealthSnapshot {
            connected: true,
            account_id: account_id.to_owned(),
            details: match phone_number {
                Some(p) => {
                    let mut out = chars_of("Phone: ");
                    push_all(&mut out, &chars_of(p.as_str()));
                    Some(string_of(&out))
                },
                None => None,
            },
        },
        Some(ConnectionState::QrReceived(_)) => ChannelHealthSnapshot {
            connected: false,
            account_id: account_id.to_owned(),
            details: Some("waiting for QR code scan".to_owned()),
        },
        Some(ConnectionState::WaitingForQr) => ChannelHealthSnapshot {
            connected: false,
            account_id: account_id.to_owned(),
            details: Some("generating QR code".to_owned()),
        },
        _ => ChannelHealthSnapshot {
            connected: false,
            account_id: account_id.to_owned(),
            details: Some("disconnected".to_owned()),
        },
    }
}

/// The QR code that an account shows, if it is waiting for a scan.
pub fn get_qr_code(state: &ConnectionState) -> (qr: Option<String>)
    ensures
        match *state {
            ConnectionState::QrReceived(code) => opt_view(qr) == Some(code@),
            _ => qr.is_none(),
        },
{
    match state {
        ConnectionState::QrReceived(code) => Some(code.clone()),
        _ => None,
    }
}

/// Whether `state` is the connection state that `msg` puts its account
/// in.
pub open spec fn is_state_after(msg: SidecarMessage, state: ConnectionState) -> bool {
    match msg {
        SidecarMessage::Qr { qr, .. } => state matches ConnectionState::QrReceived(code) && code@
            == qr@,
        SidecarMessage::Connected { phone_number, .. } => state
            matches ConnectionState::Connected { phone_number: p } && opt_view(p) == opt_view(
            phone_number,
        ),
        SidecarMessage::Disconnected { .. } => state is Disconnected,
        SidecarMessage::LoggedOut { .. } => state is Disconnected,
        _ => false,
    }
}

/// Whether `msg` changes the connection state of an account.
pub open spec fn changes_state(msg: SidecarMessage) -> bool {
    msg is Qr || msg is Connected || msg is Disconnected || msg is LoggedOut
}

/// The account that `msg` is about, where it changes a connection state.
pub open spec fn account_of(msg: SidecarMessage) -> Seq<char> {
    match msg {
        SidecarMessage::Qr { account_id, .. } => account_id@,
        SidecarMessage::Connected { account_id, .. } => account_id@,
        SidecarMessage::Disconnected { account_id, .. } => account_id@,
        SidecarMessage::LoggedOut { account_id } => account_id@,
        _ => Seq::empty(),
    }
}

/// The account whose connection state a sidecar message changes, and the
/// state it is in from then on: a QR code makes it wait for the scan, a
/// connection connects it, a disconnection or logout disconnects it. Other
/// messages change no state.
pub fn state_after(msg: &SidecarMessage) -> (change: Option<(String, ConnectionState)>)
    ensures
        match change {
            Some((account_id, state)) => changes_state(*msg) && account_id@ == account_of(*msg)
                && is_state_after(*msg, state),
            None => !changes_state(*msg),
        },
{
    match msg {
        SidecarMessage::Qr { account_id, qr } => Some(
            (account_id.clone(), ConnectionState::QrReceived(qr.clone())),
        ),
        SidecarMessage::Connected { account_id, phone_number } => {
            let phone = match phone_number {
                Some(p) => Some(p.clone()),
                None => None,
            };
            Some((account_id.clone(), ConnectionState::Connected { phone_number: phone }))
        },
        SidecarMessage::Disconnected { account_id, .. } => Some(
            (account_id.clone(), ConnectionState::Disconnected),
        ),
        SidecarMessage::LoggedOut { account_id } => Some(
            (account_id.clone(), ConnectionState::Disconnected),
        ),
        _ => None,
    }
}

/// Whether a sender may talk to an account: always with an empty
/// allowlist, else if one of its entries occurs in the sender's id.
pub open spec fn access_granted_spec(allowlist: Seq<String>, sender_jid: Seq<char>) -> bool {
    allowlist.len() == 0 || exists|i: int|
        0 <= i < allowlist.len() && occurs_in((#[trigger] allowlist[i])@, sender_jid)
}

/// Whether a sender may talk to an account with the given allowlist.
pub fn access_granted(allowlist: &[String], sender_jid: &str) -> (r: bool)
    ensures
        r == access_granted_spec(allowlist@, sender_jid@),
{
    if allowlist.len() == 0 {
        return true;
    }
    let sender = chars_of(sender_jid);
    let mut i: usize = 0;
    while i < allowlist.len()
        invariant
            i <= allowlist@.len(),
            sender@ == sender_jid@,
            forall|k: int| 0 <= k < i ==> !occurs_in((#[trigger] allowlist@[k])@, sender_jid@),
        decreases allowlist@.len() - i,
    {
        let entry = chars_of(allowlist[i].as_str());
        if contains_text(&sender, &entry) {
            return true;
        }
        i += 1;
    }
    false
}

/// The name of this channel.
pub open spec fn channel_type() -> Seq<char> {
    "whatsapp-web"@
}

/// What the user interface is told of an inbound message.
#[derive(Debug, Clone)]
pub struct InboundEvent {
    pub channel_type: String,
    pub account_id: String,
    pub peer_id: String,
    pub username: Option<String>,
    pub sender_name: Option<String>,
    pub message_count: Option<u64>,
    pub access_granted: bool,
}

/// Where a reply to a message goes.
#[derive(Debug, Clone)]
pub struct ChannelReplyTarget {
    pub channel_type: String,
    pub account_id: String,
    pub chat_id: String,
}

/// What is known of a message besides its text.
#[derive(Debug, Clone)]
pub struct ChannelMessageMeta {
    pub channel_type: String,
    pub sender_name: Option<String>,
    pub username: Option<String>,
    pub model: Option<String>,
}

/// A message to hand to the chat.
#[derive(Debug, Clone)]
pub struct ChatDispatch {
    pub body: String,
    pub reply_target: ChannelReplyTarget,
    pub meta: ChannelMessageMeta,
}

/// What a message from the sidecar asks for.
#[derive(Debug, Clone)]
pub enum SidecarOutcome {
    /// Put the account, if it is known, into this connection state.
    SetState { account_id: String, state: ConnectionState },
    /// Tell the user interface of the inbound message, and hand the
    /// message to the chat if there is something to hand over.
    Inbound { event: InboundEvent, dispatch: Option<ChatDispatch> },
    /// Nothing but a line in the log.
    Nothing,
}

/// Whether the sender of an inbound message may talk to the account: by
/// the account's allowlist, and always where the account is not known.
pub open spec fn sender_allowed(config: Option<WhatsAppConfig>, sender_jid: Seq<char>) -> bool {
    match config {
        Some(c) => access_granted_spec(c.allowlist@, sender_jid),
        None => true,
    }
}

/// The default model of an account, if the account is known and has one.
pub open spec fn model_of(config: Option<WhatsAppConfig>) -> Option<Seq<char>> {
    match config {
        Some(c) => opt_view(c.model),
        None => None,
    }
}

/// Whether `outcome` is what `msg` asks for, the configuration of its
/// account being `config`: a message that changes a connection state asks
/// for that state; an inbound message asks for an event that says who
/// wrote and whether they may, and, if they may, for the message to be
/// handed to the chat with the account's model; any other message asks
/// for nothing.
pub open spec fn is_outcome_of(
    outcome: SidecarOutcome,
    msg: SidecarMessage,
    config: Option<WhatsAppConfig>,
) -> bool {
    match msg {
        SidecarMessage::InboundMessage { account_id, chat_jid, sender_jid, sender_name, body, .. } => {
            &&& outcome matches SidecarOutcome::Inbound { event, dispatch }
            &&& event.channel_type@ == channel_type()
            &&& event.account_id@ == account_id@
            &&& event.peer_id@ == sender_jid@
            &&& opt_view(event.username) == opt_view(sender_name)
            &&& opt_view(event.sender_name) == opt_view(sender_name)
            &&& event.message_count.is_none()
            &&& event.access_granted == sender_allowed(config, sender_jid@)
            &&& match dispatch {
                Some(d) => {
                    &&& sender_allowed(config, sender_jid@)
                    &&& d.body@ == body@
                    &&& d.reply_target.channel_type@ == channel_type()
                    &&& d.reply_target.account_id@ == account_id@
                    &&& d.reply_target.chat_id@ == chat_jid@
                    &&& d.meta.channel_type@ == channel_type()
                    &&& opt_view(d.meta.sender_name) == opt_view(sender_name)
                    &&& d.meta.username.is_none()
                    &&& opt_view(d.meta.model) == model_of(config)
                },
                None => !sender_allowed(config, sender_jid@),
            }
        },
        _ => if changes_state(msg) {
            outcome matches SidecarOutcome::SetState { account_id, state } && account_id@
                == account_of(msg) && is_state_after(msg, state)
        } else {
            outcome is Nothing
        },
    }
}

fn copy_opt(s: &Option<String>) -> (r: Option<String>)
    ensures
        opt_view(r) == opt_view(*s),
{
    match s {
        Some(t) => Some(t.clone()),
        None => None,
    }
}

/// Handles a message from the sidecar: says what it asks for. `config` is
/// the configuration of the account that the message is about, if that
/// account is known.
pub fn handle_sidecar_message(msg: &SidecarMessage, config: Option<&WhatsAppConfig>) -> (outcome:
    SidecarOutcome)
    ensures
        is_outcome_of(
            outcome,
            *msg,
            match config {
                Some(c) => Some(*c),
                None => None,
            },
        ),
{
    match msg {
        SidecarMessage::InboundMessage {
            account_id,
            chat_jid,
            sender_jid,
            sender_name,
            body,
            ..
        } => {
            let granted = match config {
                Some(c) => access_granted(c.allowlist.as_slice(), sender_jid.as_str()),
                None => true,
            };
            let event = InboundEvent {
                channel_type: "whatsapp-web".to_owned(),
                account_id: account_id.clone(),
                peer_id: sender_jid.clone(),
                username: copy_opt(sender_name),
                sender_name: copy_opt(sender_name),
                message_count: None,
                access_granted: granted,
            };
            let dispatch = if granted {
                Some(
                    ChatDispatch {
                        body: body.clone(),
                        reply_target: ChannelReplyTarget {
                            channel_type: "whatsapp-web".to_owned(),
                            account_id: account_id.clone(),
                            chat_id: chat_jid.clone(),
                        },
                        meta: ChannelMessageMeta {
                            channel_type: "whatsapp-web".to_owned(),
                            sender_name: copy_opt(sender_name),
                            username: None,
                            model: match config {
                                Some(c) => copy_opt(&c.model),
                                None => None,
                            },
                        },
                    },
                )
            } else {
                None
            };
            SidecarOutcome::Inbound { event, dispatch }
        },
        _ => match state_after(msg) {
            Some((account_id, state)) => SidecarOutcome::SetState { account_id, state },
            None => SidecarOutcome::Nothing,
        },
    }
}

/// The connection state of an account that was just started: not
/// connected.
pub fn state_at_start() -> (state: ConnectionState)
    ensures
        state is Disconnected,
{
    ConnectionState::Disconnected
}

/// The connection state of an account after the sidecar was told to log
/// it in: waiting for the QR code.
pub fn state_after_login() -> (state: ConnectionState)
    ensures
        state is WaitingForQr,
{
    ConnectionState::WaitingForQr
}

} // verus!
