//! The subscription set: the ordered sequence of (topic, quality-of-service)
//! pairs that the forwarder keeps authoritative and replays after every
//! reconnect.
//!
//! Membership is by topic and adding is idempotent: a topic that is already
//! active is left exactly as it is, so a replay never produces duplicate
//! subscriptions.

use vstd::prelude::*;

use crate::valid_qos;

verus! {

/// One subscription: a topic pattern and the delivery guarantee requested
/// for it.
#[derive(Debug, PartialEq, Eq)]
pub struct Subscription {
    /// Topic pattern subscribed to.
    pub topic: String,
    /// Quality-of-service level requested for the topic.
    pub qos: u8,
}

impl Clone for Subscription {
    /// An exact copy: both fields keep their values.
    fn clone(&self) -> (r: Self)
        ensures
            r == *self,
    {
        Subscription { topic: self.topic.clone(), qos: self.qos }
    }
}

/// Whether some entry of `s` is for the topic `t`.
pub open spec fn contains_topic(s: Seq<Subscription>, t: Seq<char>) -> bool {
    exists|i: int| 0 <= i < s.len() && s[i].topic@ == t
}

/// The abstract effect of an idempotent add: a topic that is already present
/// leaves the sequence unchanged, a new one is appended.
pub open spec fn spec_add(s: Seq<Subscription>, sub: Subscription) -> Seq<Subscription> {
    if contains_topic(s, sub.topic@) {
        s
    } else {
        s.push(sub)
    }
}

/// An ordered set of subscriptions with pairwise-distinct topics and valid
/// quality-of-service levels.
#[derive(Debug, Clone, PartialEq, Eq)]
pub struct SubscriptionSet {
    entries: Vec<Subscription>,
}

impl SubscriptionSet {
    /// The entries, in the order they were added.
    pub closed spec fn entries_seq(&self) -> Seq<Subscription> {
        self.entries@
    }

    /// Topics are pairwise distinct and every level is one of 0, 1, 2.
    pub open spec fn wf(&self) -> bool {
        &&& forall|i: int, j: int|
            0 <= i < j < self.entries_seq().len() ==> self.entries_seq()[i].topic@
                != self.entries_seq()[j].topic@
        &&& forall|i: int|
            0 <= i < self.entries_seq().len() ==> valid_qos(#[trigger] self.entries_seq()[i].qos)
    }

    /// Creates an empty set.
    pub fn new() -> (s: SubscriptionSet)
        ensures
            s.wf(),
            s.entries_seq() == Seq::<Subscription>::empty(),
    {
        SubscriptionSet { entries: Vec::new() }
    }

    /// Number of subscribed topics.
    pub fn len(&self) -> (n: usize)
        ensures
            n == self.entries_seq().len(),
    {
        self.entries.len()
    }

    /// The entry at position `i`.
    pub fn get(&self, i: usize) -> (r: &Subscription)
        requires
            i < self.entries_seq().len(),
        ensures
            *r == self.entries_seq()[i as int],
    {
        &self.entries[i]
    }

    /// The position of the topic's entry, if the topic is subscribed.
    pub fn index_of(&self, topic: &str) -> (r: Option<usize>)
        ensures
            match r {
                Some(i) => i < self.entries_seq().len() && self.entries_seq()[i as int].topic@
                    == topic@,
                None => !contains_topic(self.entries_seq(), topic@),
            },
    {
        let t: String = topic.to_owned();
        let n = self.entries.len();
        for i in 0..n
            invariant
                t@ == topic@,
                n == self.entries_seq().len(),
                forall|j: int| 0 <= j < i ==> self.entries_seq()[j].topic@ != topic@,
        {
            let e = &self.entries[i];
            if e.topic == t {
                return Some(i);
            }
        }
        None
    }

    /// Whether the topic is currently subscribed.
    pub fn contains(&self, topic: &str) -> (r: bool)
        ensures
            r == contains_topic(self.entries_seq(), topic@),
    {
        match self.index_of(topic) {
            Some(_) => true,
            None => false,
        }
    }

    /// Adds a subscription; a topic that is already active is left untouched,
    /// so adding is idempotent.
    pub fn add(&mut self, topic: &str, qos: u8) -> (added: bool)
        requires
            old(self).wf(),
            valid_qos(qos),
        ensures
            final(self).wf(),
            added == !contains_topic(old(self).entries_seq(), topic@),
            !added ==> final(self).entries_seq() == old(self).entries_seq(),
            added ==> {
                &&& final(self).entries_seq() == old(self).entries_seq().push(
                    final(self).entries_seq().last(),
                )
                &&& final(self).entries_seq().last().topic@ == topic@
                &&& final(self).entries_seq().last().qos == qos
            },
    {
        if self.contains(topic) {
            false
        } else {
            let sub = Subscription { topic: topic.to_owned(), qos };
            self.entries.push(sub);
            true
        }
    }

    /// Removes the subscription for the topic, if there is one; the order of
    /// the remaining entries is kept.
    pub fn remove(&mut self, topic: &str) -> (removed: bool)
        requires
            old(self).wf(),
        ensures
            final(self).wf(),
            removed == contains_topic(old(self).entries_seq(), topic@),
            !removed ==> final(self).entries_seq() == old(self).entries_seq(),
            removed ==> exists|i: int|
                {
                    &&& 0 <= i < old(self).entries_seq().len()
                    &&& old(self).entries_seq()[i].topic@ == topic@
                    &&& final(self).entries_seq() == old(self).entries_seq().remove(i)
                },
    {
        match self.index_of(topic) {
            Some(i) => {
                self.entries.remove(i);
                proof {
                    let s0 = old(self).entries_seq();
                    let s1 = self.entries_seq();
                    s0.remove_ensures(i as int);
                    assert(s1 == s0.remove(i as int));
                    assert forall|a: int, b: int| 0 <= a < b < s1.len() implies s1[a].topic@
                        != s1[b].topic@ by {
                        let a0: int = if a < i { a } else { a + 1 };
                        let b0: int = if b < i { b } else { b + 1 };
                        assert(s0.remove(i as int)[a] == s0[a0]);
                        assert(s0.remove(i as int)[b] == s0[b0]);
                    }
                    assert forall|a: int| 0 <= a < s1.len() implies valid_qos(s1[a].qos) by {
                        let a0: int = if a < i { a } else { a + 1 };
                        assert(s0.remove(i as int)[a] == s0[a0]);
                    }
                }
                true
            },
            None => false,
        }
    }
}

/// Idempotence law: adding a subscription twice leaves exactly what adding it
/// once leaves — the set's effective membership is unchanged by a re-subscribe.
pub proof fn lemma_add_idempotent(s: Seq<Subscription>, sub: Subscription)
    ensures
        spec_add(spec_add(s, sub), sub) == spec_add(s, sub),
{
    if !contains_topic(s, sub.topic@) {
        let s1 = s.push(sub);
        assert(s1[s.len() as int].topic@ == sub.topic@);
        assert(contains_topic(s1, sub.topic@));
    }
}

} // verus!
