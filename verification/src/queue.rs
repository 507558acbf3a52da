//! The bounded event queue: a fixed-capacity FIFO hand-off buffer between the
//! network read loop (the single producer) and the downstream consumer.
//!
//! Overflow is explicit: an offer to a full queue is refused and the event is
//! handed back, never dropped, so the read loop can suspend until the consumer
//! frees a slot. Closing the consumer side is a terminal signal: every later
//! offer is refused with `Closed`.

use vstd::prelude::*;

use crate::event::InboundEvent;

verus! {

/// What became of an offered event.
pub enum OfferOutcome {
    /// The event was appended to the back of the queue.
    Accepted,
    /// The queue is full; the event is handed back untouched so the producer
    /// can suspend and retry once the consumer has drained a slot.
    Saturated(InboundEvent),
    /// The consumer side is gone; the event is handed back and no later offer
    /// will ever be accepted.
    Closed(InboundEvent),
}

/// A fixed-capacity FIFO buffer of inbound events with an explicit
/// closed-by-consumer state.
pub struct EventQueue {
    items: Vec<InboundEvent>,
    capacity: usize,
    closed: bool,
}

impl EventQueue {
    /// The buffered events, oldest first.
    pub closed spec fn contents(&self) -> Seq<InboundEvent> {
        self.items@
    }

    /// The fixed capacity the queue was created with.
    pub closed spec fn cap(&self) -> nat {
        self.capacity as nat
    }

    /// Whether the consumer side has been closed.
    pub closed spec fn is_closed(&self) -> bool {
        self.closed
    }

    /// The queue never holds more events than its capacity.
    pub open spec fn wf(&self) -> bool {
        self.contents().len() <= self.cap()
    }

    /// Creates an empty open queue of the given capacity.
    pub fn new(capacity: usize) -> (q: EventQueue)
        requires
            capacity >= 1,
        ensures
            q.wf(),
            q.contents() == Seq::<InboundEvent>::empty(),
            q.cap() == capacity,
            !q.is_closed(),
    {
        EventQueue { items: Vec::new(), capacity, closed: false }
    }

    /// Number of events currently buffered.
    pub fn len(&self) -> (n: usize)
        ensures
            n == self.contents().len(),
    {
        self.items.len()
    }

    /// The fixed capacity.
    pub fn capacity(&self) -> (n: usize)
        ensures
            n == self.cap(),
    {
        self.capacity
    }

    /// Whether the consumer side has been closed.
    pub fn closed(&self) -> (r: bool)
        ensures
            r == self.is_closed(),
    {
        self.closed
    }

    /// Offers one event to the queue.
    ///
    /// A full or closed queue refuses the offer and hands the event back
    /// unchanged: no event is ever dropped here.
    pub fn offer(&mut self, event: InboundEvent) -> (r: OfferOutcome)
        requires
            old(self).wf(),
        ensures
            final(self).wf(),
            final(self).cap() == old(self).cap(),
            final(self).is_closed() == old(self).is_closed(),
            old(self).is_closed() ==> {
                &&& r == OfferOutcome::Closed(event)
                &&& final(self).contents() == old(self).contents()
            },
            !old(self).is_closed() && old(self).contents().len() < old(self).cap() ==> {
                &&& r == OfferOutcome::Accepted
                &&& final(self).contents() == old(self).contents().push(event)
            },
            !old(self).is_closed() && old(self).contents().len() == old(self).cap() ==> {
                &&& r == OfferOutcome::Saturated(event)
                &&& final(self).contents() == old(self).contents()
            },
    {
        if self.closed {
            OfferOutcome::Closed(event)
        } else if self.items.len() < self.capacity {
            self.items.push(event);
            OfferOutcome::Accepted
        } else {
            OfferOutcome::Saturated(event)
        }
    }

    /// Removes and returns the oldest buffered event, if any.
    pub fn dequeue(&mut self) -> (r: Option<InboundEvent>)
        requires
            old(self).wf(),
        ensures
            final(self).wf(),
            final(self).cap() == old(self).cap(),
            final(self).is_closed() == old(self).is_closed(),
            old(self).contents().len() > 0 ==> {
                &&& r == Some(old(self).contents()[0])
                &&& final(self).contents() == old(self).contents().drop_first()
            },
            old(self).contents().len() == 0 ==> {
                &&& r is None
                &&& final(self).contents() == old(self).contents()
            },
    {
        if self.items.len() > 0 {
            let e = self.items.remove(0);
            proof {
                assert(self.items@ =~= old(self).items@.drop_first());
            }
            Some(e)
        } else {
            None
        }
    }

    /// Closes the consumer side. The buffered events stay readable, but every
    /// later offer is refused with `Closed`.
    pub fn close(&mut self)
        requires
            old(self).wf(),
        ensures
            final(self).wf(),
            final(self).cap() == old(self).cap(),
            final(self).contents() == old(self).contents(),
            final(self).is_closed(),
    {
        self.closed = true;
    }
}

/// The abstract effect of an accepted offer: the event joins the back.
pub open spec fn spec_offer(s: Seq<InboundEvent>, e: InboundEvent) -> Seq<InboundEvent> {
    s.push(e)
}

/// The abstract effect of offering a whole sequence of events in order.
pub open spec fn spec_offer_all(s: Seq<InboundEvent>, es: Seq<InboundEvent>) -> Seq<InboundEvent>
    decreases es.len(),
{
    if es.len() == 0 {
        s
    } else {
        spec_offer_all(spec_offer(s, es[0]), es.drop_first())
    }
}

proof fn lemma_offer_all_appends(s: Seq<InboundEvent>, es: Seq<InboundEvent>)
    ensures
        spec_offer_all(s, es) == s + es,
    decreases es.len(),
{
    if es.len() == 0 {
        assert(spec_offer_all(s, es) =~= s + es);
    } else {
        lemma_offer_all_appends(s.push(es[0]), es.drop_first());
        assert(s.push(es[0]) + es.drop_first() =~= s + es);
    }
}

/// FIFO law: events offered to an empty queue in order are dequeued in that
/// same order — after `k` dequeues the next event out is the `k`-th offered.
pub proof fn lemma_fifo_order(es: Seq<InboundEvent>, k: int)
    requires
        0 <= k < es.len(),
    ensures
        spec_offer_all(Seq::<InboundEvent>::empty(), es).skip(k)[0] == es[k],
{
    lemma_offer_all_appends(Seq::<InboundEvent>::empty(), es);
    assert(spec_offer_all(Seq::<InboundEvent>::empty(), es) =~= es);
}

} // verus!
