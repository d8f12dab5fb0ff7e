//! Subscriber-side driver state. The driver is authoritative for the
//! subscription set: `subscribe` and `unsubscribe` update it and yield the
//! control frame to broadcast to every connected publisher, and on a
//! reconnect the whole set is replayed as the first frames after the
//! handshake.

use vstd::prelude::*;

use crate::pubsub::SubscriptionSet;
use crate::pubsub_wire;
use crate::pubsub_wire::PubSubFrame;

verus! {

/// Default bound of the socket-wide ingress buffer, in messages. When it is
/// full, per-peer reads stop: backpressure to the publisher, never a drop.
pub const DEFAULT_INGRESS_BUFFER_SIZE: usize = 1024;

/// A fresh buffer holding the same bytes.
fn copy_bytes(v: &Vec<u8>) -> (r: Vec<u8>)
    ensures
        r@ == v@,
{
    let n = v.len();
    let mut out: Vec<u8> = Vec::new();
    let mut i: usize = 0;
    while i < n
        invariant
            n == v@.len(),
            i <= n,
            out@ == v@.subrange(0, i as int),
        decreases n - i,
    {
        out.push(v[i]);
        assert(v@.subrange(0, i + 1) =~= v@.subrange(0, i as int).push(v@[i as int]));
        i = i + 1;
    }
    assert(out@ =~= v@);
    out
}

/// The subscriber driver's own record of what it subscribes to. Peer
/// sessions are derived from it: each change is broadcast, and a newly
/// connected publisher receives the whole set.
pub struct SubDriver {
    subs: SubscriptionSet,
}

impl SubDriver {
    /// The driver subscribes to this topic.
    pub closed spec fn subscribed(&self, t: Seq<u8>) -> bool {
        self.subs.subscribed(t)
    }

    /// The subscribed topics.
    pub closed spec fn topics_spec(&self) -> Seq<Seq<u8>> {
        self.subs.topics_spec()
    }

    /// Topics are unique and fit the wire's 16-bit length field.
    pub closed spec fn wf(&self) -> bool {
        &&& self.subs.wf()
        &&& forall|t: Seq<u8>| self.subs.subscribed(t) ==> t.len() <= u16::MAX
    }

    /// A driver with no subscriptions: until the first subscribe, connected
    /// publishers deliver nothing.
    pub fn new() -> (r: SubDriver)
        ensures
            r.wf(),
            forall|t: Seq<u8>| !r.subscribed(t),
            r.topics_spec().len() == 0,
    {
        let r = SubDriver { subs: SubscriptionSet::new() };
        proof {
            if r.subs.topics_spec().len() > 0 {
                assert(r.subs.subscribed(r.subs.topics_spec()[0]));
            }
        }
        r
    }

    /// Remembers the topic and yields the subscribe frame to broadcast to
    /// every connected publisher.
    pub fn subscribe(&mut self, topic: &Vec<u8>) -> (frame: Vec<u8>)
        requires
            old(self).wf(),
            topic@.len() <= u16::MAX,
        ensures
            final(self).wf(),
            forall|t: Seq<u8>|
                final(self).subscribed(t) == (old(self).subscribed(t) || t == topic@),
            frame@ == pubsub_wire::pubsub_encoding(
                PubSubFrame::Subscribe { topic: *topic },
            ),
    {
        self.subs.subscribe(copy_bytes(topic));
        pubsub_wire::encode_pubsub(&PubSubFrame::Subscribe { topic: copy_bytes(topic) })
    }

    /// Forgets the topic and yields the unsubscribe frame to broadcast. Once
    /// this returns, the driver accepts no further message on the topic;
    /// at most one already in flight on the wire may still arrive.
    pub fn unsubscribe(&mut self, topic: &Vec<u8>) -> (frame: Vec<u8>)
        requires
            old(self).wf(),
            topic@.len() <= u16::MAX,
        ensures
            final(self).wf(),
            !final(self).subscribed(topic@),
            forall|t: Seq<u8>|
                t != topic@ ==> final(self).subscribed(t) == old(self).subscribed(t),
            frame@ == pubsub_wire::pubsub_encoding(
                PubSubFrame::Unsubscribe { topic: *topic },
            ),
    {
        self.subs.unsubscribe(topic);
        pubsub_wire::encode_pubsub(&PubSubFrame::Unsubscribe { topic: copy_bytes(topic) })
    }

    /// How many topics are subscribed.
    pub fn topic_count(&self) -> (r: usize)
        ensures
            r == self.topics_spec().len(),
    {
        self.subs.topic_count()
    }

    /// The subscribe frame replayed to a newly connected publisher for the
    /// subscription at the given position: the reconnect replays one such
    /// frame for every position, before anything else.
    pub fn replay_frame(&self, i: usize) -> (frame: Vec<u8>)
        requires
            self.wf(),
            i < self.topics_spec().len(),
        ensures
            frame@ == seq![pubsub_wire::TAG_SUBSCRIBE] + pubsub_wire::be16(
                self.topics_spec()[i as int].len() as u16,
            ) + self.topics_spec()[i as int],
    {
        let topic = self.subs.topic_at(i);
        proof {
            assert(self.subs.subscribed(self.subs.topics_spec()[i as int]));
        }
        pubsub_wire::encode_pubsub(&PubSubFrame::Subscribe { topic: copy_bytes(topic) })
    }
}

} // verus!
