use event_forwarder::event::{get_publish_value, InboundEvent, PublishEvent};
use event_forwarder::forwarder::{
    Action, ConnectionState, Forwarder, LoopStatus, TransportPoll, BACKOFF_UNITS,
};
use event_forwarder::queue::EventQueue;
use event_forwarder::subscription::SubscriptionSet;

fn publish_event(topic: &str, payload: &[u8]) -> InboundEvent {
    InboundEvent::Publish(PublishEvent {
        topic: topic.to_owned(),
        payload: payload.to_vec(),
        qos: 1,
        retain: false,
    })
}

fn two_topic_set() -> SubscriptionSet {
    let mut subs = SubscriptionSet::new();
    subs.add("a/b", 1);
    subs.add("c/d", 1);
    subs
}

#[test]
fn queue_preserves_fifo_order() {
    let mut q = EventQueue::new(8);
    let e1 = publish_event("t/1", b"one");
    let e2 = publish_event("t/2", b"two");
    let e3 = publish_event("t/3", b"three");
    q.offer(e1.clone());
    q.offer(e2.clone());
    q.offer(e3.clone());
    assert_eq!(q.dequeue(), Some(e1));
    assert_eq!(q.dequeue(), Some(e2));
    assert_eq!(q.dequeue(), Some(e3));
    assert_eq!(q.dequeue(), None);
}

#[test]
fn saturated_queue_suspends_and_never_drops() {
    let mut q = EventQueue::new(1);
    let mut fw = Forwarder::new(two_topic_set());
    let e1 = publish_event("a/b", b"first");
    let e2 = publish_event("a/b", b"second");

    fw.handle_poll(TransportPoll::Event(e1.clone()), &mut q);
    assert!(matches!(fw.status(), LoopStatus::Polling));
    assert_eq!(q.len(), 1);

    // The queue is full: the loop suspends with the event held back.
    fw.handle_poll(TransportPoll::Event(e2.clone()), &mut q);
    assert!(matches!(fw.status(), LoopStatus::OfferPending));
    assert_eq!(q.len(), 1);

    // Still suspended while no slot is free.
    fw.resume_offer(&mut q);
    assert!(matches!(fw.status(), LoopStatus::OfferPending));

    // Drain one slot: exactly the held-back event is delivered next.
    assert_eq!(q.dequeue(), Some(e1));
    fw.resume_offer(&mut q);
    assert!(matches!(fw.status(), LoopStatus::Polling));
    assert_eq!(q.dequeue(), Some(e2));
}

#[test]
fn closed_queue_stops_loop_with_single_warning() {
    let mut q = EventQueue::new(4);
    let mut fw = Forwarder::new(two_topic_set());
    q.close();
    assert_eq!(fw.warnings(), 0);
    fw.handle_poll(TransportPoll::Event(publish_event("a/b", b"x")), &mut q);
    assert!(matches!(fw.status(), LoopStatus::Stopped));
    assert_eq!(fw.warnings(), 1);
}

#[test]
fn transport_failure_backs_off_and_keeps_polling() {
    let mut q = EventQueue::new(4);
    let mut fw = Forwarder::new(two_topic_set());
    let acts = fw.handle_poll(TransportPoll::Failure, &mut q);
    assert_eq!(acts, vec![Action::Wait(BACKOFF_UNITS)]);
    assert!(matches!(fw.state(), ConnectionState::Reconnecting));
    assert!(matches!(fw.status(), LoopStatus::Polling));
    assert_eq!(q.len(), 0);
}

#[test]
fn session_ack_replays_every_topic_exactly_once() {
    let mut q = EventQueue::new(16);
    let mut fw = Forwarder::new(two_topic_set());

    // Data events before the acknowledgment ask for no subscribe at all.
    let acts = fw.handle_poll(TransportPoll::Event(publish_event("a/b", b"d1")), &mut q);
    assert!(acts.is_empty());
    let acts = fw.handle_poll(TransportPoll::Event(publish_event("c/d", b"d2")), &mut q);
    assert!(acts.is_empty());

    let acts = fw.handle_poll(TransportPoll::Event(InboundEvent::SessionAck), &mut q);
    let topics: Vec<(String, u8)> = acts
        .iter()
        .map(|a| match a {
            Action::Subscribe(s) => (s.topic.clone(), s.qos),
            other => panic!("unexpected action {:?}", other),
        })
        .collect();
    assert_eq!(topics, vec![("a/b".to_owned(), 1), ("c/d".to_owned(), 1)]);
    assert!(matches!(fw.state(), ConnectionState::Connected));
}

#[test]
fn resubscribing_is_idempotent() {
    let mut subs = two_topic_set();
    assert_eq!(subs.len(), 2);
    let added = subs.add("a/b", 1);
    assert!(!added);
    assert_eq!(subs.len(), 2);
    let added = subs.add("e/f", 2);
    assert!(added);
    assert_eq!(subs.len(), 3);
    assert!(subs.contains("e/f"));
    let removed = subs.remove("a/b");
    assert!(removed);
    assert_eq!(subs.len(), 2);
    assert!(!subs.contains("a/b"));
    assert!(!subs.remove("a/b"));
}

#[test]
fn reconnect_scenario_trace() {
    // Config with subscriptions ["a/b", "c/d"]; the broker delivers one event
    // on "a/b", disconnects, then reconnects.
    let mut q = EventQueue::new(16);
    let mut fw = Forwarder::new(two_topic_set());
    let sub_ab = Action::Subscribe(event_forwarder::subscription::Subscription {
        topic: "a/b".to_owned(),
        qos: 1,
    });
    let sub_cd = Action::Subscribe(event_forwarder::subscription::Subscription {
        topic: "c/d".to_owned(),
        qos: 1,
    });

    // Initial session acknowledgment: subscribe(a/b), subscribe(c/d).
    let acts = fw.handle_poll(TransportPoll::Event(InboundEvent::SessionAck), &mut q);
    assert_eq!(acts, vec![sub_ab.clone(), sub_cd.clone()]);
    assert!(matches!(fw.state(), ConnectionState::Connected));

    // deliver(a/b, payload1)
    let e1 = publish_event("a/b", b"payload1");
    let acts = fw.handle_poll(TransportPoll::Event(e1.clone()), &mut q);
    assert!(acts.is_empty());

    // transport-error -> backoff-wait
    let acts = fw.handle_poll(TransportPoll::Failure, &mut q);
    assert_eq!(acts, vec![Action::Wait(BACKOFF_UNITS)]);
    assert!(matches!(fw.state(), ConnectionState::Reconnecting));

    // reconnect -> subscribe(a/b), subscribe(c/d) re-issued
    let acts = fw.handle_poll(TransportPoll::Event(InboundEvent::SessionAck), &mut q);
    assert_eq!(acts, vec![sub_ab, sub_cd]);
    assert!(matches!(fw.state(), ConnectionState::Connected));

    // deliver resumes
    let e2 = publish_event("a/b", b"payload2");
    let acts = fw.handle_poll(TransportPoll::Event(e2.clone()), &mut q);
    assert!(acts.is_empty());

    // The consumer sees every event in order: ack, data, ack, data.
    assert_eq!(q.dequeue(), Some(InboundEvent::SessionAck));
    assert_eq!(q.dequeue(), Some(e1));
    assert_eq!(q.dequeue(), Some(InboundEvent::SessionAck));
    assert_eq!(q.dequeue(), Some(e2));
    assert_eq!(q.dequeue(), None);
}

#[test]
fn closed_queue_still_drains_buffered_events() {
    let mut q = EventQueue::new(4);
    let e1 = publish_event("t", b"kept");
    q.offer(e1.clone());
    q.close();
    assert!(q.closed());
    assert_eq!(q.len(), 1);
    assert_eq!(q.capacity(), 4);
    assert_eq!(q.dequeue(), Some(e1));
    assert_eq!(q.dequeue(), None);
}

#[test]
fn get_publish_value_extracts_only_publishes() {
    let p = PublishEvent {
        topic: "x/y".to_owned(),
        payload: vec![1, 2, 3],
        qos: 2,
        retain: true,
    };
    assert_eq!(
        get_publish_value(InboundEvent::Publish(p.clone())),
        Some(p)
    );
    assert_eq!(get_publish_value(InboundEvent::SessionAck), None);
    assert_eq!(get_publish_value(InboundEvent::Other), None);
}
