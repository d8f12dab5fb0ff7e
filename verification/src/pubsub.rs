//! Publish/subscribe core: per-session subscription sets matched by exact
//! byte equality, the bounded per-session ring with its drop-oldest policy
//! and loss counter, and the fan-out decision a publisher applies.

use vstd::prelude::*;

verus! {

/// Default bound of a subscriber session's ring, in messages.
pub const DEFAULT_SESSION_BUFFER_SIZE: usize = 1024;

/// Byte-wise equality of two buffers.
pub fn bytes_eq(a: &Vec<u8>, b: &Vec<u8>) -> (r: bool)
    ensures
        r == (a@ == b@),
{
    let n = a.len();
    if n != b.len() {
        assert(a@ != b@);
        return false;
    }
    let mut i: usize = 0;
    while i < n
        invariant
            n == a@.len(),
            n == b@.len(),
            i <= n,
            forall|k: int| 0 <= k < i ==> a@[k] == b@[k],
        decreases n - i,
    {
        if a[i] != b[i] {
            return false;
        }
        i = i + 1;
    }
    assert(a@ =~= b@);
    true
}

/// The set of topics one subscriber session currently accepts, matched by
/// exact byte equality: no wildcards. A session begins with an empty set and
/// delivers nothing until the first subscription.
pub struct SubscriptionSet {
    topics: Vec<Vec<u8>>,
}

impl SubscriptionSet {
    /// The subscribed topics.
    pub closed spec fn topics_spec(&self) -> Seq<Seq<u8>> {
        self.topics@.map_values(|t: Vec<u8>| t@)
    }

    /// The session accepts messages on this topic.
    pub open spec fn subscribed(&self, topic: Seq<u8>) -> bool {
        self.topics_spec().contains(topic)
    }

    pub closed spec fn wf(&self) -> bool {
        forall|i: int, j: int|
            0 <= i < j < self.topics@.len() ==> self.topics@[i]@ != self.topics@[j]@
    }

    /// The empty subscription set.
    pub fn new() -> (r: SubscriptionSet)
        ensures
            r.wf(),
            forall|t: Seq<u8>| !r.subscribed(t),
    {
        let r = SubscriptionSet { topics: Vec::new() };
        assert forall|t: Seq<u8>| !r.subscribed(t) by {
            assert(r.topics_spec().len() == 0);
        };
        r
    }

    /// Whether the given topic is in the set.
    pub fn contains(&self, topic: &Vec<u8>) -> (r: bool)
        ensures
            r == self.subscribed(topic@),
    {
        let n = self.topics.len();
        let mut i: usize = 0;
        while i < n
            invariant
                n == self.topics@.len(),
                i <= n,
                forall|k: int| 0 <= k < i ==> self.topics@[k]@ != topic@,
            decreases n - i,
        {
            if bytes_eq(&self.topics[i], topic) {
                assert(self.topics_spec()[i as int] == topic@);
                return true;
            }
            i = i + 1;
        }
        assert forall|k: int| 0 <= k < self.topics_spec().len() implies self.topics_spec()[k]
            != topic@ by {
            assert(self.topics_spec()[k] == self.topics@[k]@);
        };
        false
    }

    /// How many topics are in the set.
    pub fn topic_count(&self) -> (r: usize)
        ensures
            r == self.topics_spec().len(),
    {
        self.topics.len()
    }

    /// The topic at the given position.
    pub fn topic_at(&self, i: usize) -> (r: &Vec<u8>)
        requires
            i < self.topics_spec().len(),
        ensures
            r@ == self.topics_spec()[i as int],
    {
        &self.topics[i]
    }

    /// Adds a topic: afterwards exactly the old topics and this one are
    /// accepted.
    pub fn subscribe(&mut self, topic: Vec<u8>)
        requires
            old(self).wf(),
        ensures
            final(self).wf(),
            forall|t: Seq<u8>|
                final(self).subscribed(t) == (old(self).subscribed(t) || t == topic@),
    {
        if self.contains(&topic) {
            assert forall|t: Seq<u8>|
                self.subscribed(t) == (old(self).subscribed(t) || t == topic@) by {}
            return ;
        }
        self.topics.push(topic);
        assert forall|t: Seq<u8>|
            self.subscribed(t) == (old(self).subscribed(t) || t == topic@) by {
            assert(self.topics_spec() =~= old(self).topics_spec().push(topic@));
            if old(self).subscribed(t) {
                let k = choose|k: int|
                    0 <= k < old(self).topics_spec().len() && old(self).topics_spec()[k] == t;
                assert(self.topics_spec()[k] == t);
            }
            if t == topic@ {
                assert(self.topics_spec().last() == t);
            }
            if self.subscribed(t) {
                let k = choose|k: int|
                    0 <= k < self.topics_spec().len() && self.topics_spec()[k] == t;
                if k < old(self).topics_spec().len() {
                    assert(old(self).topics_spec()[k] == t);
                }
            }
        };
        assert(self.wf()) by {
            assert forall|i: int, j: int|
                0 <= i < j < self.topics@.len() implies self.topics@[i]@ != self.topics@[j]@ by {
                if j == self.topics@.len() - 1 {
                    assert(!old(self).subscribed(topic@));
                    assert(old(self).topics_spec()[i] == self.topics@[i]@);
                }
            };
        };
    }

    /// Removes a topic: afterwards no message on it is accepted, and every
    /// other topic is as before. Once this returns, the filter no longer
    /// passes the topic; only a frame already on the wire may still arrive.
    pub fn unsubscribe(&mut self, topic: &Vec<u8>)
        requires
            old(self).wf(),
        ensures
            final(self).wf(),
            !final(self).subscribed(topic@),
            forall|t: Seq<u8>|
                t != topic@ ==> final(self).subscribed(t) == old(self).subscribed(t),
    {
        let n = self.topics.len();
        let mut i: usize = 0;
        while i < n
            invariant
                self.wf(),
                n == self.topics@.len(),
                i <= n,
                *self == *old(self),
                forall|k: int| 0 <= k < i ==> self.topics@[k]@ != topic@,
            decreases n - i,
        {
            if bytes_eq(&self.topics[i], topic) {
                self.topics.remove(i);
                assert forall|k: int|
                    0 <= k < self.topics@.len() implies self.topics@[k]@ != topic@ by {
                    if k < i {
                        assert(self.topics@[k] == old(self).topics@[k]);
                    } else {
                        assert(self.topics@[k] == old(self).topics@[k + 1]);
                    }
                };
                assert forall|k: int|
                    0 <= k < self.topics_spec().len() implies self.topics_spec()[k] != topic@ by {
                    assert(self.topics_spec()[k] == self.topics@[k]@);
                };
                assert forall|t: Seq<u8>| t != topic@ implies self.subscribed(t) == old(
                    self,
                ).subscribed(t) by {
                    if old(self).subscribed(t) {
                        let k = choose|k: int|
                            0 <= k < old(self).topics_spec().len() && old(self).topics_spec()[k]
                                == t;
                        if k < i {
                            assert(self.topics@[k]@ == t);
                            assert(self.topics_spec()[k] == t);
                        } else if k > i {
                            assert(self.topics@[k - 1]@ == t);
                            assert(self.topics_spec()[k - 1] == t);
                        }
                    }
                    if self.subscribed(t) {
                        let k = choose|k: int|
                            0 <= k < self.topics_spec().len() && self.topics_spec()[k] == t;
                        if k < i {
                            assert(old(self).topics_spec()[k] == t);
                        } else {
                            assert(old(self).topics@[k + 1]@ == t);
                            assert(old(self).topics_spec()[k + 1] == t);
                        }
                    }
                };
                return ;
            }
            i = i + 1;
        }
        assert forall|k: int|
            0 <= k < self.topics_spec().len() implies self.topics_spec()[k] != topic@ by {
            assert(self.topics_spec()[k] == self.topics@[k]@);
        };
    }
}

/// The bounded per-session ring of a publisher: encoded frames awaiting the
/// wire, oldest first. On overflow the oldest queued frames are dropped and
/// counted; the publisher never blocks on a slow subscriber.
pub struct SessionRing {
    queue: Vec<Vec<u8>>,
    capacity: usize,
    pushed: u64,
    delivered: u64,
    dropped: u64,
}

impl SessionRing {
    /// The queued frames, oldest first.
    pub closed spec fn queue_spec(&self) -> Seq<Seq<u8>> {
        self.queue@.map_values(|f: Vec<u8>| f@)
    }

    /// The ring's bound, in messages.
    pub closed spec fn capacity_spec(&self) -> int {
        self.capacity as int
    }

    /// Frames appended by `publish` so far.
    pub closed spec fn pushed_spec(&self) -> int {
        self.pushed as int
    }

    /// Frames handed to the wire so far.
    pub closed spec fn delivered_spec(&self) -> int {
        self.delivered as int
    }

    /// Frames lost to the drop-oldest policy so far, for observers to detect
    /// loss.
    pub closed spec fn dropped_spec(&self) -> int {
        self.dropped as int
    }

    /// Every frame ever pushed is delivered, still queued, or counted as
    /// dropped — and nothing else.
    pub closed spec fn wf(&self) -> bool {
        &&& self.capacity >= 1
        &&& self.queue@.len() <= self.capacity
        &&& self.pushed_spec() == self.delivered as int + self.dropped as int + self.queue@.len()
    }

    /// An empty ring with the given bound.
    pub fn new(capacity: usize) -> (r: SessionRing)
        requires
            capacity >= 1,
        ensures
            r.wf(),
            r.capacity_spec() == capacity,
            r.queue_spec() == Seq::<Seq<u8>>::empty(),
            r.pushed_spec() == 0,
            r.delivered_spec() == 0,
            r.dropped_spec() == 0,
    {
        let r = SessionRing { queue: Vec::new(), capacity, pushed: 0, delivered: 0, dropped: 0 };
        assert(r.queue_spec() =~= Seq::<Seq<u8>>::empty());
        r
    }

    /// Appends one encoded frame. When the ring is full the oldest frame is
    /// dropped first and the loss counter grows; the call never blocks or
    /// fails. Queued frames stay in publish order.
    pub fn push(&mut self, frame: Vec<u8>)
        requires
            old(self).wf(),
            old(self).pushed_spec() < u64::MAX,
        ensures
            final(self).wf(),
            final(self).capacity_spec() == old(self).capacity_spec(),
            final(self).pushed_spec() == old(self).pushed_spec() + 1,
            final(self).delivered_spec() == old(self).delivered_spec(),
            old(self).queue_spec().len() < old(self).capacity_spec() ==> final(self).queue_spec()
                == old(self).queue_spec().push(frame@) && final(self).dropped_spec() == old(
                self,
            ).dropped_spec(),
            old(self).queue_spec().len() == old(self).capacity_spec() ==> final(self).queue_spec()
                == old(self).queue_spec().drop_first().push(frame@) && final(self).dropped_spec()
                == old(self).dropped_spec() + 1,
    {
        if self.queue.len() >= self.capacity {
            self.queue.remove(0);
            self.dropped = self.dropped + 1;
            self.pushed = self.pushed + 1;
            self.queue.push(frame);
            assert(self.queue_spec() =~= old(self).queue_spec().drop_first().push(frame@));
        } else {
            self.pushed = self.pushed + 1;
            self.queue.push(frame);
            assert(self.queue_spec() =~= old(self).queue_spec().push(frame@));
        }
    }

    /// Takes the oldest queued frame for the wire, if any.
    pub fn pop(&mut self) -> (r: Option<Vec<u8>>)
        requires
            old(self).wf(),
            old(self).delivered_spec() < u64::MAX,
        ensures
            final(self).wf(),
            final(self).capacity_spec() == old(self).capacity_spec(),
            final(self).pushed_spec() == old(self).pushed_spec(),
            final(self).dropped_spec() == old(self).dropped_spec(),
            old(self).queue_spec().len() == 0 ==> r is None && final(self).delivered_spec() == old(
                self,
            ).delivered_spec() && final(self).queue_spec() == old(self).queue_spec(),
            old(self).queue_spec().len() > 0 ==> (r matches Some(f) && f@ == old(
                self,
            ).queue_spec()[0] && final(self).queue_spec() == old(self).queue_spec().drop_first()
                && final(self).delivered_spec() == old(self).delivered_spec() + 1),
    {
        if self.queue.len() == 0 {
            None
        } else {
            let f = self.queue.remove(0);
            self.delivered = self.delivered + 1;
            assert(self.queue_spec() =~= old(self).queue_spec().drop_first());
            Some(f)
        }
    }

    /// How many frames the drop-oldest policy has discarded.
    pub fn dropped_count(&self) -> (r: u64)
        ensures
            r as int == self.dropped_spec(),
    {
        self.dropped
    }

    /// How many frames are queued.
    pub fn len(&self) -> (r: usize)
        ensures
            r as int == self.queue_spec().len(),
    {
        self.queue.len()
    }
}

/// One fan-out step of `publish`: the frame is appended to the session's
/// ring exactly when the session's subscription set contains the topic.
pub fn deliver(ring: &mut SessionRing, subs: &SubscriptionSet, topic: &Vec<u8>, frame: Vec<u8>)
    -> (delivered: bool)
    requires
        old(ring).wf(),
        old(ring).pushed_spec() < u64::MAX,
    ensures
        final(ring).wf(),
        delivered == subs.subscribed(topic@),
        final(ring).capacity_spec() == old(ring).capacity_spec(),
        final(ring).delivered_spec() == old(ring).delivered_spec(),
        !delivered ==> *final(ring) == *old(ring),
        delivered ==> final(ring).pushed_spec() == old(ring).pushed_spec() + 1,
        delivered && old(ring).queue_spec().len() < old(ring).capacity_spec()
            ==> final(ring).queue_spec() == old(ring).queue_spec().push(frame@)
            && final(ring).dropped_spec() == old(ring).dropped_spec(),
        delivered && old(ring).queue_spec().len() == old(ring).capacity_spec()
            ==> final(ring).queue_spec() == old(ring).queue_spec().drop_first().push(frame@)
            && final(ring).dropped_spec() == old(ring).dropped_spec() + 1,
{
    if subs.contains(topic) {
        ring.push(frame);
        true
    } else {
        false
    }
}

/// Topic filter soundness: against a set subscribed to exactly one topic,
/// the fan-out decision passes every message on that topic and none on any
/// other.
pub proof fn lemma_topic_filter_soundness(subs: SubscriptionSet, t: Seq<u8>, other: Seq<u8>)
    requires
        forall|x: Seq<u8>| subs.subscribed(x) <==> x == t,
        other != t,
    ensures
        subs.subscribed(t),
        !subs.subscribed(other),
{
}

/// Drop accounting: the loss counter equals the frames published minus those
/// delivered to the wire and those still queued; with an empty ring it is
/// exactly `published - delivered`.
pub proof fn lemma_drop_accounting(r: SessionRing)
    requires
        r.wf(),
    ensures
        r.dropped_spec() == r.pushed_spec() - r.delivered_spec() - r.queue_spec().len(),
        r.queue_spec().len() == 0 ==> r.dropped_spec() == r.pushed_spec() - r.delivered_spec(),
{
    assert(r.queue_spec().len() == r.queue@.len());
}

} // verus!
