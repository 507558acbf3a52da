//! A resilient MQTT event forwarder: it keeps one logical connection to a
//! broker, repairs the subscription set after reconnects, and moves every
//! inbound event into a bounded FIFO queue without dropping any.

pub mod client;
pub mod config;
pub mod domain;
pub mod event;
pub mod forwarder;
pub mod queue;
pub mod subscription;
pub mod text;

use vstd::prelude::*;

verus! {

/// Quality-of-service level of a published or subscribed message:
/// 0 = at-most-once, 1 = at-least-once, 2 = exactly-once.
pub open spec fn valid_qos(qos: u8) -> bool {
    qos == 0 || qos == 1 || qos == 2
}

/// Holds exactly when `qos` names one of the three delivery guarantee levels.
pub fn is_valid_qos(qos: u8) -> (r: bool)
    ensures
        r == valid_qos(qos),
{
    qos <= 2
}

} // verus!
