//! The connection to the WhatsApp sidecar: where it listens, and when to
//! stop trying to reach it.

use crate::text::{chars_of, decimal_digits, push_decimal, string_of};
use vstd::prelude::*;

verus! {

/// Default sidecar WebSocket port.
pub const DEFAULT_SIDECAR_PORT: u16 = 9876;

/// Seconds to wait between two attempts to connect.
pub const RETRY_DELAY_SECS: u64 = 2;

/// The WebSocket URL of the sidecar on this machine.
pub fn sidecar_url(port: u16) -> (url: String)
    ensures
        url@ == "ws://127.0.0.1:"@ + decimal_digits(port as nat),
{
    let mut out = chars_of("ws://127.0.0.1:");
    push_decimal(&mut out, port);
    string_of(&out)
}

/// What to do after an attempt to connect has failed.
#[derive(Debug, Clone, Copy, PartialEq, Eq, Structural)]
pub enum RetryStep {
    /// Report the failure.
    GiveUp,
    /// Wait for the retry delay, then make the attempt with this number.
    Retry(u32),
}

/// What follows a failed attempt, `failed_before` attempts having failed
/// before it: the failure is reported once `max_retries` attempts have
/// failed, so at least one attempt is always made.
pub open spec fn step_after_failure(failed_before: u32, max_retries: u32) -> RetryStep {
    if failed_before + 1 >= max_retries {
        RetryStep::GiveUp
    } else {
        RetryStep::Retry((failed_before + 1) as u32)
    }
}

/// Decides whether to try again after a failed attempt to connect.
pub fn after_failed_attempt(failed_before: u32, max_retries: u32) -> (step: RetryStep)
    ensures
        step == step_after_failure(failed_before, max_retries),
{
    if max_retries == 0 || failed_before >= max_retries - 1 {
        RetryStep::GiveUp
    } else {
        RetryStep::Retry(failed_before + 1)
    }
}

} // verus!
