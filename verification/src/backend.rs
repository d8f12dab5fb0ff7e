//! Reply-side backend bookkeeping: the set of connected peers, the accept
//! decision (authentication gate and connection limit) and the ingress
//! backpressure rule towards the frontend channel.

use vstd::prelude::*;

verus! {

/// Server-side identity hook: a synchronous, side-effect-free predicate on
/// the auth token, invoked exactly once per inbound connection, after the
/// auth frame is decoded and before any data frame.
pub trait Authenticator {
    fn authenticate(&self, id: &Vec<u8>) -> bool;
}

/// The outcome of one inbound connection attempt.
#[derive(PartialEq, Eq, Structural, Clone, Copy, Debug)]
pub enum AcceptDecision {
    /// The peer was admitted into the peer map.
    Accepted,
    /// The authenticator refused the token: ack with reject and close.
    RejectedAuth,
    /// The connection limit is reached: accept and immediately close.
    RejectedFull,
}

/// The peer map of a backend: which connections are live, keyed by peer, and
/// the connection limit the accept loop enforces.
pub struct PeerMap {
    peers: Vec<u64>,
    max_connections: Option<usize>,
}

impl PeerMap {
    /// The keys of the live peer connections.
    pub closed spec fn peers_spec(&self) -> Seq<u64> {
        self.peers@
    }

    /// A peer is in the map.
    pub open spec fn has_peer(&self, peer: u64) -> bool {
        self.peers_spec().contains(peer)
    }

    pub closed spec fn max_connections_spec(&self) -> Option<usize> {
        self.max_connections
    }

    /// The map is at its connection limit.
    pub open spec fn full(&self) -> bool {
        match self.max_connections_spec() {
            Some(m) => self.peers_spec().len() >= m,
            None => false,
        }
    }

    pub closed spec fn wf(&self) -> bool {
        forall|i: int, j: int|
            0 <= i < j < self.peers@.len() ==> self.peers@[i] != self.peers@[j]
    }

    /// An empty map with the given connection limit.
    pub fn new(max_connections: Option<usize>) -> (r: PeerMap)
        ensures
            r.wf(),
            r.peers_spec() == Seq::<u64>::empty(),
            r.max_connections_spec() == max_connections,
            forall|p: u64| !r.has_peer(p),
    {
        PeerMap { peers: Vec::new(), max_connections }
    }

    /// Whether a peer's connection is live.
    pub fn contains(&self, peer: u64) -> (r: bool)
        ensures
            r == self.has_peer(peer),
    {
        let n = self.peers.len();
        let mut i: usize = 0;
        while i < n
            invariant
                n == self.peers@.len(),
                i <= n,
                forall|k: int| 0 <= k < i ==> self.peers@[k] != peer,
            decreases n - i,
        {
            if self.peers[i] == peer {
                return true;
            }
            i = i + 1;
        }
        false
    }

    /// How many peers are connected.
    pub fn len(&self) -> (r: usize)
        ensures
            r == self.peers_spec().len(),
    {
        self.peers.len()
    }

    /// One inbound connection: admitted exactly when the authenticator said
    /// yes and the connection limit is not reached. A rejected or refused
    /// peer never appears in the map.
    pub fn on_accept(&mut self, peer: u64, authenticated: bool) -> (r: AcceptDecision)
        requires
            old(self).wf(),
            !old(self).has_peer(peer),
        ensures
            final(self).wf(),
            final(self).max_connections_spec() == old(self).max_connections_spec(),
            !authenticated ==> r == AcceptDecision::RejectedAuth && *final(self) == *old(self),
            authenticated && old(self).full() ==> r == AcceptDecision::RejectedFull && *final(self)
                == *old(self),
            authenticated && !old(self).full() ==> r == AcceptDecision::Accepted
                && final(self).peers_spec() == old(self).peers_spec().push(peer),
            final(self).has_peer(peer) <==> (authenticated && !old(self).full()),
            forall|p: u64| p != peer ==> final(self).has_peer(p) == old(self).has_peer(p),
    {
        if !authenticated {
            return AcceptDecision::RejectedAuth;
        }
        let is_full = match self.max_connections {
            Some(m) => self.peers.len() >= m,
            None => false,
        };
        if is_full {
            return AcceptDecision::RejectedFull;
        }
        self.peers.push(peer);
        assert(self.peers@.last() == peer);
        assert(self.has_peer(peer));
        assert forall|p: u64| old(self).has_peer(p) implies #[trigger] self.has_peer(p) by {
            let k = choose|k: int| 0 <= k < old(self).peers@.len() && old(self).peers@[k] == p;
            assert(self.peers@[k] == p);
        };
        assert forall|p: u64| p != peer && #[trigger] self.has_peer(p) implies old(self).has_peer(
            p,
        ) by {
            let k = choose|k: int| 0 <= k < self.peers@.len() && self.peers@[k] == p;
            assert(k < old(self).peers@.len());
            assert(old(self).peers@[k] == p);
        };
        AcceptDecision::Accepted
    }

    /// A peer's transport ended or failed: the peer leaves the map silently.
    pub fn on_peer_closed(&mut self, peer: u64)
        requires
            old(self).wf(),
        ensures
            final(self).wf(),
            final(self).max_connections_spec() == old(self).max_connections_spec(),
            !final(self).has_peer(peer),
            forall|p: u64| p != peer ==> final(self).has_peer(p) == old(self).has_peer(p),
            old(self).has_peer(peer) ==> final(self).peers_spec().len() == old(
                self,
            ).peers_spec().len() - 1,
            !old(self).has_peer(peer) ==> *final(self) == *old(self),
    {
        let n = self.peers.len();
        let mut i: usize = 0;
        while i < n
            invariant
                self.wf(),
                n == self.peers@.len(),
                i <= n,
                *self == *old(self),
                forall|k: int| 0 <= k < i ==> self.peers@[k] != peer,
            decreases n - i,
        {
            if self.peers[i] == peer {
                self.peers.remove(i);
                assert(!self.peers@.contains(peer)) by {
                    assert forall|k: int| 0 <= k < self.peers@.len() implies self.peers@[k] != peer
                        by {
                        if k < i {
                            assert(self.peers@[k] == old(self).peers@[k]);
                        } else {
                            assert(self.peers@[k] == old(self).peers@[k + 1]);
                        }
                    }
                };
                assert forall|p: u64| p != peer implies self.has_peer(p) == old(self).has_peer(p)
                    by {
                    if old(self).has_peer(p) {
                        let k = choose|k: int|
                            0 <= k < old(self).peers@.len() && old(self).peers@[k] == p;
                        if k < i {
                            assert(self.peers@[k] == p);
                        } else if k > i {
                            assert(self.peers@[k - 1] == p);
                        }
                    }
                    if self.has_peer(p) {
                        let k = choose|k: int| 0 <= k < self.peers@.len() && self.peers@[k] == p;
                        if k < i {
                            assert(old(self).peers@[k] == p);
                        } else {
                            assert(old(self).peers@[k + 1] == p);
                        }
                    }
                };
                return ;
            }
            i = i + 1;
        }
        assert(!self.peers@.contains(peer)) by {
            assert(forall|k: int| 0 <= k < self.peers@.len() ==> self.peers@[k] != peer);
        };
    }
}

/// The backpressure rule towards the frontend: a backend polls further
/// ingress from a peer exactly when the frontend channel has room, so that
/// no decoded request is ever dropped on a full channel.
pub fn ingress_allowed(queued: usize, capacity: usize) -> (r: bool)
    ensures
        r == (queued < capacity),
{
    queued < capacity
}

} // verus!
