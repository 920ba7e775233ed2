//! The envelopes the event stream sends, as plain data.
use vstd::prelude::*;

verus! {

/// An envelope: its metadata and its payload.
pub struct Message<P> {
    pub metadata: MessageMetadata,
    pub payload: P,
}

pub struct MessageMetadata {
    pub message_id: String,
    pub message_type: String,
    pub message_timestamp: String,
}

/// A session of the event stream.
pub struct EventSession {
    pub id: String,
    pub status: String,
    pub connected_at: String,
    pub keepalive_timeout_seconds: u64,
    pub reconnect_url: Option<String>,
}

/// The payload of the first envelope of a socket.
pub struct Welcome {
    pub session: EventSession,
}

/// The payload of a keepalive envelope.
pub struct Keepalive {}

/// The payload of a notification: the subscription it answers and its event.
pub struct Notification<E> {
    pub subscription: Subscription,
    pub event: E,
}

/// The payload of a reconnect request.
pub struct Reconnect {
    pub session: EventSession,
}

/// The payload of a revoked subscription.
pub struct Revocation {
    pub subscription: Subscription,
}

/// A subscription as the platform reports it back.
pub struct Subscription {
    pub id: String,
    pub status: String,
    pub version: String,
    pub subscription: crate::eventsub::Subscription,
}

} // verus!
