use event_forwarder::client::{qos_v5, MQTTV5Client, PublishError, QualityOfService};
use event_forwarder::subscription::SubscriptionSet;
use rumqttc::v5::{AsyncClient, EventLoop, MqttOptions};

/// A client whose request channel has the given capacity; nothing is ever
/// polled, so requests pile up in the channel.
fn make_client(cap: usize) -> (MQTTV5Client, EventLoop) {
    let options = MqttOptions::new("test-client", "127.0.0.1", 1883);
    let (client, event_loop) = AsyncClient::new(options, cap);
    (MQTTV5Client::new(client, SubscriptionSet::new()), event_loop)
}

#[test]
fn qos_v5_maps_exactly() {
    assert_eq!(qos_v5(0), Ok(QualityOfService::AtMostOnce));
    assert_eq!(qos_v5(1), Ok(QualityOfService::AtLeastOnce));
    assert_eq!(qos_v5(2), Ok(QualityOfService::ExactlyOnce));
    assert_eq!(qos_v5(3), Err(PublishError::InvalidQualityOfService(3)));
    assert_eq!(qos_v5(255), Err(PublishError::InvalidQualityOfService(255)));
}

#[test]
fn publish_rejects_invalid_qos_without_sending() {
    let (client, _event_loop) = make_client(1);
    // An invalid level is refused outright...
    assert_eq!(
        client.publish("a/b", 3, b"payload".to_vec()),
        Err(PublishError::InvalidQualityOfService(3))
    );
    // ...and nothing went into the outbound buffer: a capacity-1 channel
    // still accepts the next request.
    assert_eq!(client.publish("a/b", 1, b"payload".to_vec()), Ok(()));
}

#[test]
fn publish_accepts_each_valid_qos() {
    let (client, _event_loop) = make_client(8);
    assert_eq!(client.publish("t", 0, vec![]), Ok(()));
    assert_eq!(client.publish("t", 1, vec![]), Ok(()));
    assert_eq!(client.publish("t", 2, vec![]), Ok(()));
    assert_eq!(client.publish_retain("t", 1, vec![1]), Ok(()));
}

#[test]
fn publish_fails_fast_when_buffer_is_full() {
    let (client, _event_loop) = make_client(2);
    assert_eq!(client.publish("t", 0, vec![]), Ok(()));
    assert_eq!(client.publish("t", 0, vec![]), Ok(()));
    assert_eq!(client.publish("t", 0, vec![]), Err(PublishError::SendFailed));
}

#[test]
fn publish_refuses_wildcard_topics() {
    let (client, _event_loop) = make_client(8);
    assert_eq!(
        client.publish("a/+", 0, vec![]),
        Err(PublishError::SendFailed)
    );
    assert_eq!(
        client.publish("a/#", 0, vec![]),
        Err(PublishError::SendFailed)
    );
}

#[test]
fn subscribe_updates_set_only_on_success() {
    let (mut client, _event_loop) = make_client(8);
    assert_eq!(client.subscribe("a/b", 1), Ok(()));
    assert!(client.subscriptions().contains("a/b"));

    // An invalid level changes nothing.
    assert_eq!(
        client.subscribe("c/d", 9),
        Err(PublishError::InvalidQualityOfService(9))
    );
    assert!(!client.subscriptions().contains("c/d"));

    // An empty filter is refused by the broker client and changes nothing.
    assert_eq!(client.subscribe("", 1), Err(PublishError::SendFailed));
    assert_eq!(client.subscriptions().len(), 1);

    // Re-subscribing an active topic is a no-op for the set.
    assert_eq!(client.subscribe("a/b", 1), Ok(()));
    assert_eq!(client.subscriptions().len(), 1);
}

#[test]
fn subscribe_fails_when_buffer_is_full_and_set_is_unchanged() {
    let (mut client, _event_loop) = make_client(1);
    assert_eq!(client.publish("t", 0, vec![]), Ok(()));
    assert_eq!(client.subscribe("a/b", 1), Err(PublishError::SendFailed));
    assert!(!client.subscriptions().contains("a/b"));
}

#[test]
fn unsubscribe_removes_from_set() {
    let (mut client, _event_loop) = make_client(8);
    assert_eq!(client.subscribe("a/b", 1), Ok(()));
    assert_eq!(client.subscribe("c/d", 0), Ok(()));
    assert_eq!(client.unsubscribe("a/b"), Ok(()));
    assert!(!client.subscriptions().contains("a/b"));
    assert!(client.subscriptions().contains("c/d"));

    // Unsubscribing a topic that was never subscribed is accepted by the
    // broker client and leaves the set as it is.
    assert_eq!(client.unsubscribe("x/y"), Ok(()));
    assert_eq!(client.subscriptions().len(), 1);
}

#[test]
fn publish_retain_shares_the_publish_contract() {
    let (client, _event_loop) = make_client(8);
    assert_eq!(
        client.publish_retain("a/#", 0, vec![]),
        Err(PublishError::SendFailed)
    );
    assert_eq!(
        client.publish_retain("t", 7, vec![]),
        Err(PublishError::InvalidQualityOfService(7))
    );
}

#[test]
fn get_client_hands_out_a_working_handle() {
    let (client, _event_loop) = make_client(8);
    let raw: AsyncClient = client.get_client();
    raw.try_publish("t", rumqttc::v5::mqttbytes::QoS::AtMostOnce, false, vec![])
        .unwrap();
}
