//! The event forwarder's read-loop state machine.
//!
//! One dedicated task owns the network read loop: it polls the transport,
//! replays the authoritative subscription set whenever the broker acknowledges
//! a new or resumed session, and offers every received event to the bounded
//! event queue. The decisions of that loop live here, fully verified; the
//! surrounding runtime performs the actions (network requests, waits) that the
//! machine asks for.
//!
//! Policy, as fixed by the design: a transport failure is never fatal — the
//! loop backs off `BACKOFF_UNITS` time units and polls again, forever. A full
//! queue suspends the loop (the event is kept, never dropped) until the
//! consumer drains a slot. A closed queue is the one terminal condition: the
//! loop emits a single warning and stops.

use vstd::prelude::*;

use crate::event::InboundEvent;
use crate::queue::{EventQueue, OfferOutcome};
use crate::subscription::{contains_topic, Subscription, SubscriptionSet};

verus! {

/// Fixed backoff, in time units, before polling again after a transport
/// failure.
pub const BACKOFF_UNITS: u64 = 10;

/// Fixed timeout, in time units, for the initial connection handshake.
pub const CONNECT_TIMEOUT_UNITS: u64 = 30;

/// The connection-level state of the forwarder.
#[derive(Debug, Clone, Copy, PartialEq, Eq, Structural)]
pub enum ConnectionState {
    /// No session and none being established.
    Disconnected,
    /// The first session is being established.
    Connecting,
    /// A session is established.
    Connected,
    /// The session was lost; the loop keeps polling until the broker
    /// acknowledges a new one.
    Reconnecting,
}

/// What one poll of the transport produced.
#[derive(Debug, Clone, PartialEq, Eq)]
pub enum TransportPoll {
    /// A protocol event arrived.
    Event(InboundEvent),
    /// The transport failed; the connection is gone for the moment.
    Failure,
}

/// An action the read loop asks its runtime to perform.
#[derive(Debug, Clone, PartialEq, Eq)]
pub enum Action {
    /// Send a subscribe request for this topic to the broker.
    Subscribe(Subscription),
    /// Wait this many time units before polling again.
    Wait(u64),
}

/// Where the read loop stands.
#[derive(Debug, Clone, Copy, PartialEq, Eq, Structural)]
pub enum LoopStatus {
    /// Ready to poll the transport for the next event.
    Polling,
    /// Suspended on a full queue: a received event is held back until the
    /// consumer frees a slot.
    OfferPending,
    /// Terminated: the consumer side of the queue was closed.
    Stopped,
}

/// The subscribe requests that a session acknowledgment triggers: one per
/// entry of the authoritative set, in order.
pub open spec fn subscribe_actions(subs: Seq<Subscription>) -> Seq<Action> {
    Seq::new(subs.len(), |i: int| Action::Subscribe(subs[i]))
}

/// The actions one poll outcome triggers: a failure asks for a backoff wait, a
/// session acknowledgment asks for the full subscription replay, anything
/// else asks for nothing.
pub open spec fn poll_actions(subs: Seq<Subscription>, poll: TransportPoll) -> Seq<Action> {
    match poll {
        TransportPoll::Failure => seq![Action::Wait(BACKOFF_UNITS)],
        TransportPoll::Event(e) => if e is SessionAck {
            subscribe_actions(subs)
        } else {
            Seq::empty()
        },
    }
}

/// The read-loop state machine: connection state, authoritative subscription
/// set, the event held back while the queue is full, and the loop's status.
pub struct Forwarder {
    state: ConnectionState,
    subs: SubscriptionSet,
    pending: Option<InboundEvent>,
    status: LoopStatus,
    warnings: u64,
}

impl Forwarder {
    /// The connection-level state.
    pub closed spec fn state_spec(&self) -> ConnectionState {
        self.state
    }

    /// The authoritative subscription set.
    pub closed spec fn subs_spec(&self) -> SubscriptionSet {
        self.subs
    }

    /// The event held back while the queue is full.
    pub closed spec fn pending_spec(&self) -> Option<InboundEvent> {
        self.pending
    }

    /// Where the read loop stands.
    pub closed spec fn status_spec(&self) -> LoopStatus {
        self.status
    }

    /// How many closed-queue warnings have been emitted.
    pub closed spec fn warnings_spec(&self) -> u64 {
        self.warnings
    }

    /// The forwarder's invariant: an event is held back exactly while the
    /// loop is suspended on a full queue, and the one closed-queue warning is
    /// emitted exactly when the loop stops — never an error storm.
    pub open spec fn wf(&self) -> bool {
        &&& self.subs_spec().wf()
        &&& (self.status_spec() is OfferPending <==> self.pending_spec() is Some)
        &&& (self.status_spec() is Stopped ==> self.warnings_spec() == 1)
        &&& (!(self.status_spec() is Stopped) ==> self.warnings_spec() == 0)
    }

    /// Creates a forwarder that is establishing its first session, with the
    /// given authoritative subscription set.
    pub fn new(subs: SubscriptionSet) -> (f: Forwarder)
        requires
            subs.wf(),
        ensures
            f.wf(),
            f.state_spec() is Connecting,
            f.subs_spec() == subs,
            f.status_spec() is Polling,
            f.warnings_spec() == 0,
    {
        Forwarder {
            state: ConnectionState::Connecting,
            subs,
            pending: None,
            status: LoopStatus::Polling,
            warnings: 0,
        }
    }

    /// The connection-level state.
    pub fn state(&self) -> (s: ConnectionState)
        ensures
            s == self.state_spec(),
    {
        self.state
    }

    /// Where the read loop stands.
    pub fn status(&self) -> (s: LoopStatus)
        ensures
            s == self.status_spec(),
    {
        self.status
    }

    /// How many closed-queue warnings have been emitted.
    pub fn warnings(&self) -> (n: u64)
        ensures
            n == self.warnings_spec(),
    {
        self.warnings
    }

    /// The authoritative subscription set.
    pub fn subscriptions(&self) -> (s: &SubscriptionSet)
        ensures
            *s == self.subs_spec(),
    {
        &self.subs
    }

    /// One polling cycle of the read loop.
    ///
    /// A transport failure moves the connection to `Reconnecting` and asks for
    /// a fixed backoff wait — the loop never terminates on failure. A session
    /// acknowledgment moves it to `Connected` and asks for one subscribe
    /// request per topic of the authoritative set. Every received event is
    /// then offered to the queue: a full queue suspends the loop with the
    /// event held back, a closed queue stops the loop with exactly one
    /// warning.
    pub fn handle_poll(&mut self, poll: TransportPoll, queue: &mut EventQueue) -> (acts: Vec<
        Action,
    >)
        requires
            old(self).wf(),
            old(self).status_spec() is Polling,
            old(queue).wf(),
        ensures
            final(self).wf(),
            final(queue).wf(),
            final(self).subs_spec() == old(self).subs_spec(),
            final(queue).cap() == old(queue).cap(),
            final(queue).is_closed() == old(queue).is_closed(),
            acts@ == poll_actions(old(self).subs_spec().entries_seq(), poll),
            match poll {
                TransportPoll::Failure => {
                    &&& final(self).state_spec() is Reconnecting
                    &&& final(self).status_spec() is Polling
                    &&& final(self).warnings_spec() == old(self).warnings_spec()
                    &&& final(queue).contents() == old(queue).contents()
                },
                TransportPoll::Event(e) => {
                    &&& (e is SessionAck && !old(queue).is_closed()
                        ==> final(self).state_spec() is Connected)
                    &&& (!(e is SessionAck) && !old(queue).is_closed()
                        ==> final(self).state_spec() == old(self).state_spec())
                    &&& (old(queue).is_closed() ==> {
                        &&& final(self).status_spec() is Stopped
                        &&& final(self).state_spec() is Disconnected
                        &&& final(self).warnings_spec() == old(self).warnings_spec() + 1
                        &&& final(queue).contents() == old(queue).contents()
                    })
                    &&& (!old(queue).is_closed() && old(queue).contents().len() < old(
                        queue,
                    ).cap() ==> {
                        &&& final(self).status_spec() is Polling
                        &&& final(self).warnings_spec() == old(self).warnings_spec()
                        &&& final(queue).contents() == old(queue).contents().push(e)
                    })
                    &&& (!old(queue).is_closed() && old(queue).contents().len() == old(
                        queue,
                    ).cap() ==> {
                        &&& final(self).status_spec() is OfferPending
                        &&& final(self).pending_spec() == Some(e)
                        &&& final(self).warnings_spec() == old(self).warnings_spec()
                        &&& final(queue).contents() == old(queue).contents()
                    })
                },
            },
    {
        match poll {
            TransportPoll::Failure => {
                self.state = ConnectionState::Reconnecting;
                let mut acts: Vec<Action> = Vec::new();
                acts.push(Action::Wait(BACKOFF_UNITS));
                proof {
                    assert(acts@ =~= poll_actions(old(self).subs_spec().entries_seq(), poll));
                }
                acts
            },
            TransportPoll::Event(e) => {
                let mut acts: Vec<Action> = Vec::new();
                if e.is_session_ack() {
                    self.state = ConnectionState::Connected;
                    let ghost sa = subscribe_actions(old(self).subs_spec().entries_seq());
                    let n = self.subs.len();
                    for i in 0..n
                        invariant
                            self.state_spec() is Connected,
                            self.subs_spec() == old(self).subs_spec(),
                            self.pending_spec() == old(self).pending_spec(),
                            self.status_spec() == old(self).status_spec(),
                            self.warnings_spec() == old(self).warnings_spec(),
                            n == self.subs_spec().entries_seq().len(),
                            sa == subscribe_actions(self.subs_spec().entries_seq()),
                            acts@ == sa.take(i as int),
                    {
                        let sub = self.subs.get(i).clone();
                        acts.push(Action::Subscribe(sub));
                        proof {
                            assert(acts@ =~= sa.take(i + 1));
                        }
                    }
                    proof {
                        assert(acts@ =~= sa);
                    }
                } else {
                    proof {
                        assert(acts@ =~= Seq::<Action>::empty());
                    }
                }
                match queue.offer(e) {
                    OfferOutcome::Accepted => {},
                    OfferOutcome::Saturated(ev) => {
                        self.pending = Some(ev);
                        self.status = LoopStatus::OfferPending;
                    },
                    OfferOutcome::Closed(_ev) => {
                        self.warnings = self.warnings + 1;
                        self.status = LoopStatus::Stopped;
                        self.state = ConnectionState::Disconnected;
                    },
                }
                acts
            },
        }
    }

    /// Retries the held-back offer after the loop suspended on a full queue.
    ///
    /// The event is delivered as soon as a slot is free; it is never dropped
    /// while the queue stays open. A queue closed in the meantime stops the
    /// loop with its single warning.
    pub fn resume_offer(&mut self, queue: &mut EventQueue)
        requires
            old(self).wf(),
            old(self).status_spec() is OfferPending,
            old(queue).wf(),
        ensures
            final(self).wf(),
            final(queue).wf(),
            final(self).subs_spec() == old(self).subs_spec(),
            !old(queue).is_closed() ==> final(self).state_spec() == old(self).state_spec(),
            final(queue).cap() == old(queue).cap(),
            final(queue).is_closed() == old(queue).is_closed(),
            old(queue).is_closed() ==> {
                &&& final(self).status_spec() is Stopped
                &&& final(self).state_spec() is Disconnected
                &&& final(self).warnings_spec() == 1
                &&& final(queue).contents() == old(queue).contents()
            },
            !old(queue).is_closed() && old(queue).contents().len() < old(queue).cap() ==> {
                &&& final(self).status_spec() is Polling
                &&& final(self).warnings_spec() == 0
                &&& final(queue).contents() == old(queue).contents().push(
                    old(self).pending_spec()->Some_0,
                )
            },
            !old(queue).is_closed() && old(queue).contents().len() == old(queue).cap() ==> {
                &&& final(self).status_spec() is OfferPending
                &&& final(self).pending_spec() == old(self).pending_spec()
                &&& final(self).warnings_spec() == 0
                &&& final(queue).contents() == old(queue).contents()
            },
    {
        let e = self.pending.take().unwrap();
        match queue.offer(e) {
            OfferOutcome::Accepted => {
                self.status = LoopStatus::Polling;
            },
            OfferOutcome::Saturated(ev) => {
                self.pending = Some(ev);
            },
            OfferOutcome::Closed(_ev) => {
                self.warnings = self.warnings + 1;
                self.status = LoopStatus::Stopped;
                self.state = ConnectionState::Disconnected;
            },
        }
    }
}

/// Whether a poll outcome is anything but a session acknowledgment: a data
/// event, some other packet, or a transport failure.
pub open spec fn is_pre_ack_poll(poll: TransportPoll) -> bool {
    match poll {
        TransportPoll::Event(e) => !(e is SessionAck),
        TransportPoll::Failure => true,
    }
}

/// The actions of a whole run of polling cycles, in order. The authoritative
/// subscription set is fixed here because polling never mutates it (only
/// explicit subscribe and unsubscribe calls do).
pub open spec fn run_actions(subs: Seq<Subscription>, polls: Seq<TransportPoll>) -> Seq<Action>
    decreases polls.len(),
{
    if polls.len() == 0 {
        Seq::empty()
    } else {
        poll_actions(subs, polls[0]) + run_actions(subs, polls.drop_first())
    }
}

/// How many subscribe requests for topic `t` a sequence of actions holds.
pub open spec fn count_subscribes(acts: Seq<Action>, t: Seq<char>) -> nat
    decreases acts.len(),
{
    if acts.len() == 0 {
        0
    } else {
        (match acts[0] {
            Action::Subscribe(s) => if s.topic@ == t {
                1nat
            } else {
                0nat
            },
            _ => 0nat,
        }) + count_subscribes(acts.drop_first(), t)
    }
}

proof fn lemma_count_subscribes_concat(a: Seq<Action>, b: Seq<Action>, t: Seq<char>)
    ensures
        count_subscribes(a + b, t) == count_subscribes(a, t) + count_subscribes(b, t),
    decreases a.len(),
{
    if a.len() == 0 {
        assert(a + b =~= b);
    } else {
        assert((a + b).drop_first() =~= a.drop_first() + b);
        lemma_count_subscribes_concat(a.drop_first(), b, t);
    }
}

/// A replay of a subscription set with pairwise-distinct topics requests each
/// subscribed topic exactly once, and an unsubscribed topic not at all.
pub proof fn lemma_replay_counts(subs: Seq<Subscription>, t: Seq<char>)
    requires
        forall|i: int, j: int| 0 <= i < j < subs.len() ==> subs[i].topic@ != subs[j].topic@,
    ensures
        count_subscribes(subscribe_actions(subs), t) == if contains_topic(subs, t) {
            1nat
        } else {
            0nat
        },
    decreases subs.len(),
{
    let sa = subscribe_actions(subs);
    if subs.len() == 0 {
        assert(!contains_topic(subs, t));
    } else {
        let rest = subs.drop_first();
        assert(sa.drop_first() =~= subscribe_actions(rest));
        lemma_replay_counts(rest, t);
        if subs[0].topic@ == t {
            assert(contains_topic(subs, t));
            assert(!contains_topic(rest, t)) by {
                assert forall|i: int| 0 <= i < rest.len() implies rest[i].topic@ != t by {
                    assert(rest[i] == subs[i + 1]);
                }
            }
        } else {
            if contains_topic(subs, t) {
                let w = choose|i: int| 0 <= i < subs.len() && subs[i].topic@ == t;
                assert(rest[w - 1] == subs[w]);
                assert(contains_topic(rest, t));
            }
            if contains_topic(rest, t) {
                let w = choose|i: int| 0 <= i < rest.len() && rest[i].topic@ == t;
                assert(subs[w + 1] == rest[w]);
                assert(contains_topic(subs, t));
            }
        }
    }
}

/// Replay law: over a run where every poll before the last is a data event or
/// a failure, and the last is the broker's session acknowledgment, every
/// subscribed topic receives exactly one re-subscribe request — however many
/// data events or failures came first.
pub proof fn lemma_reconnect_resubscribes_once(
    subs: SubscriptionSet,
    polls: Seq<TransportPoll>,
    t: Seq<char>,
)
    requires
        subs.wf(),
        contains_topic(subs.entries_seq(), t),
        polls.len() >= 1,
        forall|i: int| 0 <= i < polls.len() - 1 ==> is_pre_ack_poll(#[trigger] polls[i]),
        polls.last() == TransportPoll::Event(InboundEvent::SessionAck),
    ensures
        count_subscribes(run_actions(subs.entries_seq(), polls), t) == 1,
    decreases polls.len(),
{
    let s = subs.entries_seq();
    if polls.len() == 1 {
        assert(run_actions(s, polls) == poll_actions(s, polls[0]) + run_actions(
            s,
            polls.drop_first(),
        ));
        assert(polls[0] == polls.last());
        assert(poll_actions(s, polls[0]) == subscribe_actions(s));
        lemma_replay_counts(s, t);
        lemma_count_subscribes_concat(subscribe_actions(s), run_actions(s, polls.drop_first()), t);
        assert(polls.drop_first().len() == 0);
        assert(count_subscribes(run_actions(s, polls.drop_first()), t) == 0);
    } else {
        let rest = polls.drop_first();
        assert(rest.last() == polls.last());
        assert(forall|i: int|
            0 <= i < rest.len() - 1 ==> is_pre_ack_poll(#[trigger] rest[i]) && rest[i] == polls[i
                + 1]);
        lemma_reconnect_resubscribes_once(subs, rest, t);
        assert(is_pre_ack_poll(polls[0]));
        let pa = poll_actions(s, polls[0]);
        match polls[0] {
            TransportPoll::Failure => {
                assert(pa[0] == Action::Wait(BACKOFF_UNITS));
                assert(pa.drop_first().len() == 0);
                assert(count_subscribes(pa.drop_first(), t) == 0);
                assert(count_subscribes(pa, t) == 0);
            },
            TransportPoll::Event(e) => {
                assert(pa.len() == 0);
                assert(count_subscribes(pa, t) == 0);
            },
        }
        lemma_count_subscribes_concat(poll_actions(s, polls[0]), run_actions(s, rest), t);
    }
}

/// At most one warning is ever on record: the forwarder's invariant ties the
/// single warning to the terminal state, so a closed queue can never produce
/// an error storm.
pub proof fn lemma_at_most_one_warning(f: Forwarder)
    requires
        f.wf(),
    ensures
        f.warnings_spec() <= 1,
        f.warnings_spec() == 1 <==> f.status_spec() is Stopped,
{
}

} // verus!
