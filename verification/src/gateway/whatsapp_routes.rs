//! What the WhatsApp webhook routes answer.

use vstd::prelude::*;

verus! {

/// Query parameters for webhook verification.
#[derive(Debug, Clone)]
pub struct VerifyQuery {
    /// `hub.mode`
    pub hub_mode: Option<String>,
    /// `hub.verify_token`
    pub hub_verify_token: Option<String>,
    /// `hub.challenge`
    pub hub_challenge: Option<String>,
}

/// What is found of the signature header of an inbound webhook.
#[derive(Debug, Clone, Copy, PartialEq, Eq, Structural)]
pub enum SignatureHeader {
    /// The request has no `X-Hub-Signature-256` header.
    Missing,
    /// The header is there, but is no text.
    Unreadable,
    /// The header is there.
    Present,
}

/// HTTP status `200 OK`.
pub const STATUS_OK: u16 = 200;

/// HTTP status `400 Bad Request`.
pub const STATUS_BAD_REQUEST: u16 = 400;

/// HTTP status `401 Unauthorized`.
pub const STATUS_UNAUTHORIZED: u16 = 401;

/// HTTP status `403 Forbidden`.
pub const STATUS_FORBIDDEN: u16 = 403;

/// HTTP status `404 Not Found`.
pub const STATUS_NOT_FOUND: u16 = 404;

/// The status that answers an inbound webhook: a missing signature header
/// is unauthorized, an unreadable one a bad request; then the account must
/// be known, and the signature must be valid. Whatever the body holds, a
/// signed webhook of a known account is acknowledged, so that it is not
/// sent again.
pub open spec fn post_status(
    header: SignatureHeader,
    account_known: bool,
    signature_valid: bool,
) -> u16 {
    match header {
        SignatureHeader::Missing => STATUS_UNAUTHORIZED,
        SignatureHeader::Unreadable => STATUS_BAD_REQUEST,
        SignatureHeader::Present => if !account_known {
            STATUS_NOT_FOUND
        } else if !signature_valid {
            STATUS_UNAUTHORIZED
        } else {
            STATUS_OK
        },
    }
}

/// The status that answers an inbound webhook.
pub fn webhook_post_status(header: SignatureHeader, account_known: bool, signature_valid: bool) -> (status:
    u16)
    ensures
        status == post_status(header, account_known, signature_valid),
{
    match header {
        SignatureHeader::Missing => STATUS_UNAUTHORIZED,
        SignatureHeader::Unreadable => STATUS_BAD_REQUEST,
        SignatureHeader::Present => {
            if !account_known {
                STATUS_NOT_FOUND
            } else if !signature_valid {
                STATUS_UNAUTHORIZED
            } else {
                STATUS_OK
            }
        },
    }
}

/// Whether a webhook is handed on for processing: only when it is
/// acknowledged and its body could be read as a payload.
pub fn webhook_is_processed(status: u16, payload_read: bool) -> (r: bool)
    ensures
        r == (status == STATUS_OK && payload_read),
{
    status == STATUS_OK && payload_read
}

/// What answers a request to verify the webhook's subscription: for an
/// account that is not known `404`; else the challenge with `200` where
/// the verification gave one, and `403` where it failed.
pub fn webhook_verify_response(account_known: bool, challenge: Option<String>) -> (out: (
    u16,
    String,
))
    ensures
        !account_known ==> out.0 == STATUS_NOT_FOUND && out.1@ == "Account not found"@,
        account_known ==> match challenge {
            Some(c) => out.0 == STATUS_OK && out.1 == c,
            None => out.0 == STATUS_FORBIDDEN && out.1@ == "Verification failed"@,
        },
{
    if !account_known {
        (STATUS_NOT_FOUND, "Account not found".to_owned())
    } else {
        match challenge {
            Some(c) => (STATUS_OK, c),
            None => (STATUS_FORBIDDEN, "Verification failed".to_owned()),
        }
    }
}

} // verus!
