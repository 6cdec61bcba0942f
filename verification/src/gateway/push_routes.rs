//! Requests of the push notification routes.

use vstd::prelude::*;

verus! {

/// Request to subscribe to push notifications.
#[derive(Debug, Clone)]
pub struct SubscribeRequest {
    pub endpoint: String,
    pub keys: SubscriptionKeys,
}

/// The keys of a push subscription.
#[derive(Debug, Clone)]
pub struct SubscriptionKeys {
    pub p256dh: String,
    pub auth: String,
}

/// Request to unsubscribe from push notifications.
#[derive(Debug, Clone)]
pub struct UnsubscribeRequest {
    pub endpoint: String,
}

} // verus!
