//! The events that the broker connection delivers to the forwarder.
//!
//! An inbound event is either the broker's acknowledgment of a new or resumed
//! session, a published message, or some other protocol packet that the
//! forwarder hands on without looking inside.

use vstd::prelude::*;

verus! {

/// A published message as delivered by the broker: topic, payload bytes,
/// quality-of-service level and retain flag.
#[derive(Debug, Clone, PartialEq, Eq)]
pub struct PublishEvent {
    /// Topic the message was published on.
    pub topic: String,
    /// Raw payload bytes.
    pub payload: Vec<u8>,
    /// Delivery guarantee level the broker used.
    pub qos: u8,
    /// Whether the broker marked the message as retained.
    pub retain: bool,
}

/// One protocol event received from the broker connection.
#[derive(Debug, Clone, PartialEq, Eq)]
pub enum InboundEvent {
    /// The broker confirmed a new or resumed connection; this is the trigger
    /// for replaying the subscription set.
    SessionAck,
    /// A message published on a subscribed topic.
    Publish(PublishEvent),
    /// Any other protocol packet (acknowledgments, pings, and the like).
    Other,
}

impl InboundEvent {
    /// Whether this event is the broker's session acknowledgment.
    pub fn is_session_ack(&self) -> (r: bool)
        ensures
            r == (*self is SessionAck),
    {
        matches!(self, InboundEvent::SessionAck)
    }
}

/// Extracts the published message from an event, if it carries one.
///
/// Every other kind of event yields `None`.
pub fn get_publish_value(event: InboundEvent) -> (r: Option<PublishEvent>)
    ensures
        match event {
            InboundEvent::Publish(p) => r == Some(p),
            _ => r is None,
        },
{
    match event {
        InboundEvent::Publish(p) => Some(p),
        _ => None,
    }
}

} // verus!
