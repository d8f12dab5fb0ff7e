//! Request-side driver state: the pending-request table mapping each
//! outstanding id to its deadline and reply slot, wrapping id allocation,
//! timeout expiry, and the disposition of a request issued while the
//! connection is down.

use vstd::prelude::*;

verus! {

/// Errors surfaced to a caller of `request`.
#[derive(PartialEq, Eq, Structural, Clone, Copy, Debug)]
pub enum ReqError {
    /// No reply arrived before the entry's deadline.
    Timeout,
    /// The connection was lost while the request was outstanding.
    ConnectionLost,
    /// The server refused the configured auth token.
    AuthRejected,
    /// The driver or its channel is gone.
    SocketClosed,
}

/// What the driver does with a `request` call, by connection state: send it
/// on a live connection; queue it while reconnecting when the socket blocks;
/// fail fast when it does not.
#[derive(PartialEq, Eq, Structural, Clone, Copy, Debug)]
pub enum Disposition {
    Send,
    Queue,
    FailFast,
}

/// The disposition rule: a connected driver sends; a disconnected one queues
/// when `block_on_reconnect` is set, else the call fails at once with
/// `ConnectionLost`.
pub fn request_disposition(connected: bool, block_on_reconnect: bool) -> (r: Disposition)
    ensures
        connected ==> r == Disposition::Send,
        !connected && block_on_reconnect ==> r == Disposition::Queue,
        !connected && !block_on_reconnect ==> r == Disposition::FailFast,
{
    if connected {
        Disposition::Send
    } else if block_on_reconnect {
        Disposition::Queue
    } else {
        Disposition::FailFast
    }
}

/// The pending-request table: each outstanding id with its deadline and its
/// one-shot reply slot. Ids are unique; an entry leaves when its reply
/// arrives, its deadline elapses, or the connection closes.
pub struct PendingTable<T> {
    entries: Vec<(u32, u64, T)>,
    next_id: u32,
}

impl<T> PendingTable<T> {
    /// The id is outstanding.
    pub closed spec fn contains_spec(&self, id: u32) -> bool {
        exists|i: int| 0 <= i < self.entries@.len() && self.entries@[i].0 == id
    }

    /// The deadline of an outstanding id.
    pub closed spec fn deadline_of(&self, id: u32) -> u64 {
        self.entries@[choose|i: int|
            0 <= i < self.entries@.len() && self.entries@[i].0 == id].1
    }

    /// The reply slot of an outstanding id.
    pub closed spec fn slot_of(&self, id: u32) -> T {
        self.entries@[choose|i: int|
            0 <= i < self.entries@.len() && self.entries@[i].0 == id].2
    }

    /// The id the next request will be given.
    pub closed spec fn next_id_spec(&self) -> u32 {
        self.next_id
    }

    /// How many requests are outstanding.
    pub closed spec fn count(&self) -> int {
        self.entries@.len() as int
    }

    /// Outstanding ids are unique.
    pub closed spec fn wf(&self) -> bool {
        forall|i: int, j: int|
            0 <= i < j < self.entries@.len() ==> self.entries@[i].0 != self.entries@[j].0
    }

    proof fn lemma_entry_at(&self, i: int)
        requires
            self.wf(),
            0 <= i < self.entries@.len(),
        ensures
            self.contains_spec(self.entries@[i].0),
            self.deadline_of(self.entries@[i].0) == self.entries@[i].1,
            self.slot_of(self.entries@[i].0) == self.entries@[i].2,
    {
        let id = self.entries@[i].0;
        assert(self.contains_spec(id));
        let k = choose|k: int| 0 <= k < self.entries@.len() && self.entries@[k].0 == id;
        assert(k == i);
    }

    /// An empty table; ids start at zero.
    pub fn new() -> (r: PendingTable<T>)
        ensures
            r.wf(),
            r.count() == 0,
            r.next_id_spec() == 0,
            forall|id: u32| !r.contains_spec(id),
    {
        PendingTable { entries: Vec::new(), next_id: 0 }
    }

    /// Hands out the next id: monotonically increasing, wrapping at 2^32.
    /// Entries are short-lived relative to 2^32 outstanding requests, so a
    /// wrapped id does not collide in practice; `insert` still refuses a
    /// collision outright.
    pub fn alloc_id(&mut self) -> (r: u32)
        requires
            old(self).wf(),
        ensures
            final(self).wf(),
            r == old(self).next_id_spec(),
            old(self).next_id_spec() < u32::MAX ==> final(self).next_id_spec() == old(
                self,
            ).next_id_spec() + 1,
            old(self).next_id_spec() == u32::MAX ==> final(self).next_id_spec() == 0,
            final(self).count() == old(self).count(),
            forall|id: u32| final(self).contains_spec(id) == old(self).contains_spec(id),
            forall|id: u32|
                old(self).contains_spec(id) ==> final(self).deadline_of(id) == old(
                    self,
                ).deadline_of(id) && final(self).slot_of(id) == old(self).slot_of(id),
    {
        let id = self.next_id;
        if self.next_id == u32::MAX {
            self.next_id = 0;
        } else {
            self.next_id = self.next_id + 1;
        }
        id
    }

    /// The id is outstanding.
    pub fn contains(&self, id: u32) -> (r: bool)
        ensures
            r == self.contains_spec(id),
    {
        let n = self.entries.len();
        let mut i: usize = 0;
        while i < n
            invariant
                n == self.entries@.len(),
                i <= n,
                forall|k: int| 0 <= k < i ==> self.entries@[k].0 != id,
            decreases n - i,
        {
            if self.entries[i].0 == id {
                return true;
            }
            i = i + 1;
        }
        false
    }

    /// Registers an outstanding request under a fresh id.
    pub fn insert(&mut self, id: u32, deadline: u64, slot: T)
        requires
            old(self).wf(),
            !old(self).contains_spec(id),
        ensures
            final(self).wf(),
            final(self).next_id_spec() == old(self).next_id_spec(),
            final(self).count() == old(self).count() + 1,
            final(self).contains_spec(id),
            final(self).deadline_of(id) == deadline,
            final(self).slot_of(id) == slot,
            forall|x: u32| x != id ==> final(self).contains_spec(x) == old(self).contains_spec(x),
            forall|x: u32|
                x != id && old(self).contains_spec(x) ==> final(self).deadline_of(x) == old(
                    self,
                ).deadline_of(x) && final(self).slot_of(x) == old(self).slot_of(x),
    {
        self.entries.push((id, deadline, slot));
        let ghost n = old(self).entries@.len() as int;
        assert(self.entries@[n].0 == id);
        assert(self.wf()) by {
            assert forall|i: int, j: int|
                0 <= i < j < self.entries@.len() implies self.entries@[i].0 != self.entries@[j].0
                by {
                if j < n {
                    assert(old(self).entries@[i] == self.entries@[i]);
                    assert(old(self).entries@[j] == self.entries@[j]);
                } else {
                    assert(self.entries@[i] == old(self).entries@[i]);
                    if self.entries@[i].0 == id {
                        assert(old(self).contains_spec(id));
                    }
                }
            };
        };
        proof {
            self.lemma_entry_at(n);
            assert forall|x: u32| x != id implies self.contains_spec(x) == old(
                self,
            ).contains_spec(x) by {
                if old(self).contains_spec(x) {
                    let k = choose|k: int|
                        0 <= k < old(self).entries@.len() && old(self).entries@[k].0 == x;
                    assert(self.entries@[k].0 == x);
                }
                if self.contains_spec(x) {
                    let k = choose|k: int|
                        0 <= k < self.entries@.len() && self.entries@[k].0 == x;
                    assert(k < n);
                    assert(old(self).entries@[k].0 == x);
                }
            };
            assert forall|x: u32| x != id && old(self).contains_spec(x) implies self.deadline_of(x)
                == old(self).deadline_of(x) && self.slot_of(x) == old(self).slot_of(x) by {
                let k = choose|k: int|
                    0 <= k < old(self).entries@.len() && old(self).entries@[k].0 == x;
                old(self).lemma_entry_at(k);
                assert(self.entries@[k] == old(self).entries@[k]);
                self.lemma_entry_at(k);
            };
        }
    }

    /// Takes an outstanding id out, returning its deadline and reply slot:
    /// a reply arrived, or the entry is being failed. Every other entry is
    /// untouched, so completions in any order reach their own slots.
    pub fn remove(&mut self, id: u32) -> (r: Option<(u64, T)>)
        requires
            old(self).wf(),
        ensures
            final(self).wf(),
            final(self).next_id_spec() == old(self).next_id_spec(),
            !final(self).contains_spec(id),
            old(self).contains_spec(id) ==> (r matches Some(e) && e.0 == old(self).deadline_of(id)
                && e.1 == old(self).slot_of(id)) && final(self).count() == old(self).count() - 1,
            !old(self).contains_spec(id) ==> r is None && final(self).count() == old(self).count(),
            forall|x: u32| x != id ==> final(self).contains_spec(x) == old(self).contains_spec(x),
            forall|x: u32|
                x != id && old(self).contains_spec(x) ==> final(self).deadline_of(x) == old(
                    self,
                ).deadline_of(x) && final(self).slot_of(x) == old(self).slot_of(x),
    {
        let n = self.entries.len();
        let mut i: usize = 0;
        while i < n
            invariant
                self.wf(),
                n == self.entries@.len(),
                i <= n,
                *self == *old(self),
                forall|k: int| 0 <= k < i ==> self.entries@[k].0 != id,
            decreases n - i,
        {
            if self.entries[i].0 == id {
                proof {
                    old(self).lemma_entry_at(i as int);
                }
                let e = self.entries.remove(i);
                proof {
                    assert forall|k: int|
                        0 <= k < self.entries@.len() implies self.entries@[k].0 != id by {
                        if k < i {
                            assert(self.entries@[k] == old(self).entries@[k]);
                        } else {
                            assert(self.entries@[k] == old(self).entries@[k + 1]);
                        }
                    };
                    assert forall|x: u32| x != id implies self.contains_spec(x) == old(
                        self,
                    ).contains_spec(x) by {
                        if old(self).contains_spec(x) {
                            let k = choose|k: int|
                                0 <= k < old(self).entries@.len() && old(self).entries@[k].0 == x;
                            if k < i {
                                assert(self.entries@[k].0 == x);
                            } else if k > i {
                                assert(self.entries@[k - 1].0 == x);
                            }
                        }
                        if self.contains_spec(x) {
                            let k = choose|k: int|
                                0 <= k < self.entries@.len() && self.entries@[k].0 == x;
                            if k < i {
                                assert(old(self).entries@[k].0 == x);
                            } else {
                                assert(old(self).entries@[k + 1].0 == x);
                            }
                        }
                    };
                    assert forall|x: u32| x != id && old(self).contains_spec(x) implies
                        self.deadline_of(x) == old(self).deadline_of(x) && self.slot_of(x) == old(
                        self,
                    ).slot_of(x) by {
                        let k = choose|k: int|
                            0 <= k < old(self).entries@.len() && old(self).entries@[k].0 == x;
                        old(self).lemma_entry_at(k);
                        if k < i {
                            assert(self.entries@[k] == old(self).entries@[k]);
                            self.lemma_entry_at(k);
                        } else {
                            assert(self.entries@[k - 1] == old(self).entries@[k]);
                            self.lemma_entry_at(k - 1);
                        }
                    };
                }
                return Some((e.1, e.2));
            }
            i = i + 1;
        }
        None
    }

    /// How many requests are outstanding.
    pub fn len(&self) -> (r: usize)
        ensures
            r as int == self.count(),
    {
        self.entries.len()
    }

    /// Some outstanding id whose deadline has passed, if any.
    fn find_expired(&self, now: u64) -> (r: Option<u32>)
        requires
            self.wf(),
        ensures
            r matches Some(id) ==> self.contains_spec(id) && self.deadline_of(id) <= now,
            r is None ==> forall|id: u32|
                self.contains_spec(id) ==> self.deadline_of(id) > now,
    {
        let n = self.entries.len();
        let mut i: usize = 0;
        while i < n
            invariant
                self.wf(),
                n == self.entries@.len(),
                i <= n,
                forall|k: int| 0 <= k < i ==> self.entries@[k].1 > now,
            decreases n - i,
        {
            if self.entries[i].1 <= now {
                proof {
                    self.lemma_entry_at(i as int);
                }
                return Some(self.entries[i].0);
            }
            i = i + 1;
        }
        proof {
            assert forall|id: u32| self.contains_spec(id) implies self.deadline_of(id) > now by {
                let k = choose|k: int|
                    0 <= k < self.entries@.len() && self.entries@[k].0 == id;
                self.lemma_entry_at(k);
            };
        }
        None
    }

    /// Timer expiry: removes every entry whose deadline has passed and
    /// returns those ids with their slots, to be completed with `Timeout`.
    /// Exactly the entries with later deadlines remain, untouched.
    pub fn expire(&mut self, now: u64) -> (r: Vec<(u32, T)>)
        requires
            old(self).wf(),
        ensures
            final(self).wf(),
            final(self).next_id_spec() == old(self).next_id_spec(),
            forall|id: u32|
                final(self).contains_spec(id) <==> (old(self).contains_spec(id) && old(
                    self,
                ).deadline_of(id) > now),
            forall|id: u32|
                final(self).contains_spec(id) ==> final(self).deadline_of(id) == old(
                    self,
                ).deadline_of(id) && final(self).slot_of(id) == old(self).slot_of(id),
            forall|k: int|
                0 <= k < r@.len() ==> old(self).contains_spec(r@[k].0) && old(self).deadline_of(
                    r@[k].0,
                ) <= now && r@[k].1 == old(self).slot_of(r@[k].0),
            forall|id: u32|
                old(self).contains_spec(id) && old(self).deadline_of(id) <= now ==> exists|k: int|
                    0 <= k < r@.len() && r@[k].0 == id,
    {
        let mut out: Vec<(u32, T)> = Vec::new();
        let mut done = false;
        while !done
            invariant
                self.wf(),
                self.next_id_spec() == old(self).next_id_spec(),
                forall|id: u32|
                    self.contains_spec(id) ==> old(self).contains_spec(id) && self.deadline_of(id)
                        == old(self).deadline_of(id) && self.slot_of(id) == old(self).slot_of(id),
                forall|id: u32|
                    old(self).contains_spec(id) && old(self).deadline_of(id) > now ==> #[trigger]
                    self.contains_spec(id),
                forall|k: int|
                    0 <= k < out@.len() ==> old(self).contains_spec(#[trigger] out@[k].0) && old(
                        self,
                    ).deadline_of(out@[k].0) <= now && out@[k].1 == old(self).slot_of(out@[k].0),
                forall|id: u32|
                    old(self).contains_spec(id) && old(self).deadline_of(id) <= now
                        ==> #[trigger] self.contains_spec(id) || exists|k: int|
                        0 <= k < out@.len() && out@[k].0 == id,
                done ==> forall|id: u32|
                    self.contains_spec(id) ==> self.deadline_of(id) > now,
            decreases self.count(), (if done { 0int } else { 1int }),
        {
            match self.find_expired(now) {
                None => {
                    done = true;
                },
                Some(id) => {
                    match self.remove(id) {
                        Some(e) => {
                            let ghost prev_out = out@;
                            out.push((id, e.1));
                            proof {
                                assert forall|x: u32|
                                    old(self).contains_spec(x) && old(self).deadline_of(x)
                                        <= now implies #[trigger] self.contains_spec(x) || exists|
                                    k: int,
                                |
                                    0 <= k < out@.len() && out@[k].0 == x by {
                                    if x == id {
                                        assert(out@[out@.len() - 1].0 == id);
                                    } else if exists|k: int|
                                        0 <= k < prev_out.len() && prev_out[k].0 == x {
                                        let k = choose|k: int|
                                            0 <= k < prev_out.len() && prev_out[k].0 == x;
                                        assert(out@[k].0 == x);
                                    }
                                };
                            }
                        },
                        None => {
                            proof {
                                assert(false);
                            }
                        },
                    }
                },
            }
        }
        out
    }
}

/// Id correlation: replies may complete in any order — here, the reply for
/// the later request is taken out first — and each outstanding id still
/// resolves to its own reply slot, never another's. `t1` is `t0` after the
/// entry of `id2` was removed, as `remove`'s contract states it.
pub proof fn lemma_reply_correlation<T>(
    t0: PendingTable<T>,
    t1: PendingTable<T>,
    id1: u32,
    id2: u32,
)
    requires
        id1 != id2,
        t0.contains_spec(id1),
        t0.contains_spec(id2),
        !t1.contains_spec(id2),
        forall|x: u32| x != id2 ==> t1.contains_spec(x) == t0.contains_spec(x),
        forall|x: u32|
            x != id2 && t0.contains_spec(x) ==> t1.slot_of(x) == t0.slot_of(x)
                && t1.deadline_of(x) == t0.deadline_of(x),
    ensures
        t1.contains_spec(id1),
        t1.slot_of(id1) == t0.slot_of(id1),
        t1.deadline_of(id1) == t0.deadline_of(id1),
{
}

} // verus!
