//! What the WhatsApp Web channel hands to the sidecar for a reply.

use crate::ids::random_uuid;
use crate::reply::{caption_for, caption_of, media_kind, media_type_for, ReplyPayload};
use crate::whatsapp::types::GatewayMessage;
use crate::whatsapp_business::types::opt_view;
use vstd::prelude::*;
use vstd::string::StrSliceExecFns;

verus! {

/// Whether `msg` asks the sidecar to send `text` to `to` under
/// `request_id`.
pub open spec fn is_send_text(
    msg: GatewayMessage,
    account_id: Seq<char>,
    to: Seq<char>,
    text: Seq<char>,
    request_id: Seq<char>,
) -> bool {
    msg matches GatewayMessage::SendText { account_id: a, to: t, text: x, request_id: r } && a@
        == account_id && t@ == to && x@ == text && r@ == request_id
}

/// Whether `msg` asks the sidecar to send the media at `media_url`, of a
/// kind that goes by `mime_type`, with `text` as its caption unless it is
/// empty.
pub open spec fn is_send_media(
    msg: GatewayMessage,
    account_id: Seq<char>,
    to: Seq<char>,
    media_url: Seq<char>,
    mime_type: Seq<char>,
    text: Seq<char>,
    request_id: Seq<char>,
) -> bool {
    msg matches GatewayMessage::SendMedia {
        account_id: a,
        to: t,
        media_url: u,
        media_type: k,
        caption: c,
        request_id: r,
    } && a@ == account_id && t@ == to && u@ == media_url && k@ == media_kind(mime_type)
        && opt_view(c) == caption_of(text) && r@ == request_id
}

/// What a reply makes the sidecar do, under the given request id: send
/// its media, with the text as caption; else send its text; nothing for a
/// reply without media and text.
pub open spec fn is_plan_for(
    plan: Option<GatewayMessage>,
    account_id: Seq<char>,
    to: Seq<char>,
    payload: ReplyPayload,
    request_id: Seq<char>,
) -> bool {
    match payload.media {
        Some(media) => plan is Some && is_send_media(
            plan->0,
            account_id,
            to,
            media.url@,
            media.mime_type@,
            payload.text@,
            request_id,
        ),
        None => if payload.text@.len() > 0 {
            plan is Some && is_send_text(plan->0, account_id, to, payload.text@, request_id)
        } else {
            plan is None
        },
    }
}

/// The request to send `text` to `to`.
pub fn text_message(account_id: &str, to: &str, text: &str, request_id: String) -> (msg:
    GatewayMessage)
    ensures
        is_send_text(msg, account_id@, to@, text@, request_id@),
{
    GatewayMessage::SendText {
        account_id: account_id.to_owned(),
        to: to.to_owned(),
        text: text.to_owned(),
        request_id,
    }
}

/// The request to show `to` that a reply is being typed.
pub fn typing_message(account_id: &str, to: &str) -> (msg: GatewayMessage)
    ensures
        msg matches GatewayMessage::SendTyping { account_id: a, to: t } && a@ == account_id@ && t@
            == to@,
{
    GatewayMessage::SendTyping { account_id: account_id.to_owned(), to: to.to_owned() }
}

/// The request that delivers `payload` to `to` under the given request
/// id, if there is anything to deliver.
pub fn media_message(account_id: &str, to: &str, payload: &ReplyPayload, request_id: String) -> (plan:
    Option<GatewayMessage>)
    ensures
        is_plan_for(plan, account_id@, to@, *payload, request_id@),
{
    match &payload.media {
        Some(media) => Some(
            GatewayMessage::SendMedia {
                account_id: account_id.to_owned(),
                to: to.to_owned(),
                media_url: media.url.clone(),
                media_type: media_type_for(media.mime_type.as_str()).to_owned(),
                caption: caption_for(&payload.text),
                request_id,
            },
        ),
        None => {
            if payload.text.as_str().unicode_len() > 0 {
                Some(text_message(account_id, to, payload.text.as_str(), request_id))
            } else {
                None
            }
        },
    }
}

/// The request to send `text` to `to`, under a fresh random request id.
pub fn send_text(account_id: &str, to: &str, text: &str) -> (msg: GatewayMessage)
    ensures
        exists|request_id: Seq<char>|
            request_id.len() == 36 && is_send_text(msg, account_id@, to@, text@, request_id),
{
    let request_id = random_uuid();
    let ghost id = request_id@;
    let msg = text_message(account_id, to, text, request_id);
    assert(is_send_text(msg, account_id@, to@, text@, id));
    msg
}

/// The request to show `to` that a reply is being typed.
pub fn send_typing(account_id: &str, to: &str) -> (msg: GatewayMessage)
    ensures
        msg matches GatewayMessage::SendTyping { account_id: a, to: t } && a@ == account_id@ && t@
            == to@,
{
    typing_message(account_id, to)
}

/// The request that delivers `payload` to `to`, under a fresh random
/// request id, if there is anything to deliver.
pub fn send_media(account_id: &str, to: &str, payload: &ReplyPayload) -> (plan: Option<
    GatewayMessage,
>)
    ensures
        exists|request_id: Seq<char>|
            request_id.len() == 36 && is_plan_for(plan, account_id@, to@, *payload, request_id),
{
    if payload.media.is_none() && payload.text.as_str().unicode_len() == 0 {
        proof {
            let any_id = Seq::new(36, |i: int| '0');
            assert(any_id.len() == 36);
            assert(is_plan_for(None, account_id@, to@, *payload, any_id));
        }
        return None;
    }
    let request_id = random_uuid();
    let ghost id = request_id@;
    let plan = media_message(account_id, to, payload, request_id);
    assert(is_plan_for(plan, account_id@, to@, *payload, id));
    plan
}

} // verus!
