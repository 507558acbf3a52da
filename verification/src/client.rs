//! The client handle: non-blocking publish and subscription management over
//! an MQTT v5 session.
//!
//! The handle validates every requested quality-of-service level itself — a
//! level outside 0, 1, 2 is refused before anything is sent — and keeps the
//! authoritative subscription set, which changes only when the broker client
//! accepted the request.
//!
//! The network client underneath is rumqttc's; its non-blocking `try_` calls
//! are the only outside calls, each behind one trusted wrapper.

use vstd::prelude::*;

use crate::subscription::{contains_topic, SubscriptionSet};
use crate::valid_qos;

verus! {

/// A delivery guarantee level: at-most-once, at-least-once or exactly-once.
#[derive(Debug, Clone, Copy, PartialEq, Eq, Structural)]
pub enum QualityOfService {
    /// Level 0: fire and forget.
    AtMostOnce,
    /// Level 1: acknowledged delivery.
    AtLeastOnce,
    /// Level 2: exactly-once delivery.
    ExactlyOnce,
}

/// Why a non-blocking send was refused.
#[derive(Debug, Clone, Copy, PartialEq, Eq, Structural)]
pub enum PublishError {
    /// The requested quality-of-service level is not 0, 1 or 2; nothing was
    /// sent.
    InvalidQualityOfService(u8),
    /// The broker client refused the request: its outbound buffer is
    /// saturated, the session is gone, or the topic is not acceptable. The
    /// call never blocks waiting for room.
    SendFailed,
}

/// Maps a numeric level to the delivery guarantee it names; exactly the
/// levels 0, 1 and 2 are accepted.
pub fn qos_v5(qos: u8) -> (r: Result<QualityOfService, PublishError>)
    ensures
        r == if qos == 0 {
            Ok::<QualityOfService, PublishError>(QualityOfService::AtMostOnce)
        } else if qos == 1 {
            Ok::<QualityOfService, PublishError>(QualityOfService::AtLeastOnce)
        } else if qos == 2 {
            Ok::<QualityOfService, PublishError>(QualityOfService::ExactlyOnce)
        } else {
            Err::<QualityOfService, PublishError>(PublishError::InvalidQualityOfService(qos))
        },
        r is Ok <==> valid_qos(qos),
{
    match qos {
        0 => Ok(QualityOfService::AtMostOnce),
        1 => Ok(QualityOfService::AtLeastOnce),
        2 => Ok(QualityOfService::ExactlyOnce),
        _ => Err(PublishError::InvalidQualityOfService(qos)),
    }
}

/// Whether the topic holds a wildcard character, which a publish topic must
/// not.
pub open spec fn has_wildcard(t: Seq<char>) -> bool {
    exists|i: int| 0 <= i < t.len() && (t[i] == '+' || t[i] == '#')
}

#[verifier::external_type_specification]
#[verifier::external_body]
/// rumqttc's handle to the MQTT v5 event loop; opaque here, carried through.
pub struct ExAsyncClient(rumqttc::v5::AsyncClient);

/// Relies on rumqttc's `AsyncClient::try_publish`: the request is handed to
/// the event loop without blocking; a full or closed request channel refuses
/// it, and a topic holding a wildcard character is always refused.
#[verifier::external_body]
fn try_publish_raw(
    client: &rumqttc::v5::AsyncClient,
    topic: &str,
    qos: QualityOfService,
    retain: bool,
    payload: Vec<u8>,
) -> (r: Result<(), PublishError>)
    ensures
        match r {
            Ok(_) => !has_wildcard(topic@),
            Err(e) => e == PublishError::SendFailed,
        },
{
    let q = match qos {
        QualityOfService::AtMostOnce => rumqttc::v5::mqttbytes::QoS::AtMostOnce,
        QualityOfService::AtLeastOnce => rumqttc::v5::mqttbytes::QoS::AtLeastOnce,
        QualityOfService::ExactlyOnce => rumqttc::v5::mqttbytes::QoS::ExactlyOnce,
    };
    match client.try_publish(topic, q, retain, payload) {
        Ok(()) => Ok(()),
        Err(_) => Err(PublishError::SendFailed),
    }
}

/// Relies on rumqttc's `AsyncClient::try_subscribe`: non-blocking as above,
/// and an empty topic filter is always refused.
#[verifier::external_body]
fn try_subscribe_raw(client: &rumqttc::v5::AsyncClient, topic: &str, qos: QualityOfService) -> (r:
    Result<(), PublishError>)
    ensures
        match r {
            Ok(_) => topic@.len() > 0,
            Err(e) => e == PublishError::SendFailed,
        },
{
    let q = match qos {
        QualityOfService::AtMostOnce => rumqttc::v5::mqttbytes::QoS::AtMostOnce,
        QualityOfService::AtLeastOnce => rumqttc::v5::mqttbytes::QoS::AtLeastOnce,
        QualityOfService::ExactlyOnce => rumqttc::v5::mqttbytes::QoS::ExactlyOnce,
    };
    match client.try_subscribe(topic, q) {
        Ok(()) => Ok(()),
        Err(_) => Err(PublishError::SendFailed),
    }
}

/// Relies on rumqttc's `AsyncClient::try_unsubscribe`: non-blocking; refused
/// only when the request channel is full or closed.
#[verifier::external_body]
fn try_unsubscribe_raw(client: &rumqttc::v5::AsyncClient, topic: &str) -> (r: Result<
    (),
    PublishError,
>)
    ensures
        match r {
            Ok(_) => true,
            Err(e) => e == PublishError::SendFailed,
        },
{
    match client.try_unsubscribe(topic) {
        Ok(()) => Ok(()),
        Err(_) => Err(PublishError::SendFailed),
    }
}

/// An MQTT v5 client handle: the broker client plus the authoritative
/// subscription set, which changes only when a request was accepted.
pub struct MQTTV5Client {
    client: rumqttc::v5::AsyncClient,
    subs: SubscriptionSet,
}

impl MQTTV5Client {
    /// The authoritative subscription set.
    pub closed spec fn subs_spec(&self) -> SubscriptionSet {
        self.subs
    }

    /// The subscription set is well formed.
    pub open spec fn wf(&self) -> bool {
        self.subs_spec().wf()
    }

    /// Wraps a broker client handle, starting from the given subscription
    /// set.
    pub fn new(client: rumqttc::v5::AsyncClient, subs: SubscriptionSet) -> (c: MQTTV5Client)
        requires
            subs.wf(),
        ensures
            c.wf(),
            c.subs_spec() == subs,
    {
        MQTTV5Client { client, subs }
    }

    /// The authoritative subscription set.
    pub fn subscriptions(&self) -> (s: &SubscriptionSet)
        ensures
            *s == self.subs_spec(),
    {
        &self.subs
    }

    /// Relies on rumqttc's derived `Clone` for `AsyncClient`: a second handle
    /// to the same request channel.
    #[verifier::external_body]
    pub fn get_client(&self) -> rumqttc::v5::AsyncClient {
        self.client.clone()
    }

    /// Non-blocking publish. A level outside 0, 1, 2 is refused as
    /// `InvalidQualityOfService` before anything reaches the network; under
    /// resource pressure the send fails fast instead of blocking.
    pub fn publish(&self, topic: &str, qos: u8, payload: Vec<u8>) -> (r: Result<(), PublishError>)
        ensures
            !valid_qos(qos) ==> r == Err::<(), PublishError>(
                PublishError::InvalidQualityOfService(qos),
            ),
            valid_qos(qos) ==> (r is Ok || r == Err::<(), PublishError>(PublishError::SendFailed)),
            valid_qos(qos) && has_wildcard(topic@) ==> r == Err::<(), PublishError>(
                PublishError::SendFailed,
            ),
    {
        let q = match qos_v5(qos) {
            Ok(q) => q,
            Err(e) => {
                return Err(e);
            },
        };
        try_publish_raw(&self.client, topic, q, false, payload)
    }

    /// Non-blocking publish of a retained message; the same contract as
    /// `publish`.
    pub fn publish_retain(&self, topic: &str, qos: u8, payload: Vec<u8>) -> (r: Result<
        (),
        PublishError,
    >)
        ensures
            !valid_qos(qos) ==> r == Err::<(), PublishError>(
                PublishError::InvalidQualityOfService(qos),
            ),
            valid_qos(qos) ==> (r is Ok || r == Err::<(), PublishError>(PublishError::SendFailed)),
            valid_qos(qos) && has_wildcard(topic@) ==> r == Err::<(), PublishError>(
                PublishError::SendFailed,
            ),
    {
        let q = match qos_v5(qos) {
            Ok(q) => q,
            Err(e) => {
                return Err(e);
            },
        };
        try_publish_raw(&self.client, topic, q, true, payload)
    }

    /// Non-blocking subscribe. The authoritative set gains the topic exactly
    /// when the broker client accepted the request; re-subscribing an active
    /// topic leaves the set unchanged.
    pub fn subscribe(&mut self, topic: &str, qos: u8) -> (r: Result<(), PublishError>)
        requires
            old(self).wf(),
        ensures
            final(self).wf(),
            !valid_qos(qos) ==> r == Err::<(), PublishError>(
                PublishError::InvalidQualityOfService(qos),
            ),
            valid_qos(qos) ==> (r is Ok || r == Err::<(), PublishError>(PublishError::SendFailed)),
            valid_qos(qos) && topic@.len() == 0 ==> r == Err::<(), PublishError>(
                PublishError::SendFailed,
            ),
            r is Err ==> final(self).subs_spec() == old(self).subs_spec(),
            r is Ok ==> {
                let s0 = old(self).subs_spec().entries_seq();
                let s1 = final(self).subs_spec().entries_seq();
                &&& (contains_topic(s0, topic@) ==> s1 == s0)
                &&& (!contains_topic(s0, topic@) ==> {
                    &&& s1 == s0.push(s1.last())
                    &&& s1.last().topic@ == topic@
                    &&& s1.last().qos == qos
                })
            },
    {
        let q = match qos_v5(qos) {
            Ok(q) => q,
            Err(e) => {
                return Err(e);
            },
        };
        match try_subscribe_raw(&self.client, topic, q) {
            Ok(()) => {
                self.subs.add(topic, qos);
                Ok(())
            },
            Err(e) => Err(e),
        }
    }

    /// Non-blocking unsubscribe. The authoritative set loses the topic
    /// exactly when the broker client accepted the request.
    pub fn unsubscribe(&mut self, topic: &str) -> (r: Result<(), PublishError>)
        requires
            old(self).wf(),
        ensures
            final(self).wf(),
            r is Err ==> {
                &&& r == Err::<(), PublishError>(PublishError::SendFailed)
                &&& final(self).subs_spec() == old(self).subs_spec()
            },
            r is Ok ==> {
                let s0 = old(self).subs_spec().entries_seq();
                let s1 = final(self).subs_spec().entries_seq();
                &&& (!contains_topic(s0, topic@) ==> s1 == s0)
                &&& (contains_topic(s0, topic@) ==> exists|i: int|
                    {
                        &&& 0 <= i < s0.len()
                        &&& s0[i].topic@ == topic@
                        &&& s1 == s0.remove(i)
                    })
            },
    {
        match try_unsubscribe_raw(&self.client, topic) {
            Ok(()) => {
                self.subs.remove(topic);
                Ok(())
            },
            Err(e) => Err(e),
        }
    }
}

} // verus!
