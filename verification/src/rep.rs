//! Reply-socket types: the user-facing request object with its single-use
//! reply slot, socket options and lifecycle, and the per-connection peer
//! session that decodes requests, tracks outstanding response slots and
//! queues replies for the wire.

use vstd::prelude::*;

use crate::wire;
use crate::wire::Message;
use crate::wire::WireError;

verus! {

/// Default capacity of the channel between a backend and its frontend.
pub const DEFAULT_BUFFER_SIZE: usize = 1024;

/// Errors of the reply socket.
#[derive(PartialEq, Eq, Structural, Clone, Copy, Debug)]
pub enum RepError {
    /// The underlying byte stream failed.
    Io,
    /// The wire codec rejected the byte stream.
    Wire(WireError),
    /// The other end of a socket channel was dropped.
    SocketClosed,
    /// The transport implementation failed to bind or accept.
    Transport,
}

/// Options of a reply socket.
pub struct RepOptions {
    pub set_nodelay: bool,
    pub max_connections: Option<usize>,
}

impl Default for RepOptions {
    /// No connection limit; low-latency writes on.
    fn default() -> (r: RepOptions)
        ensures
            r.set_nodelay,
            r.max_connections is None,
    {
        RepOptions { set_nodelay: true, max_connections: None }
    }
}

/// Declares tokio's one-shot sender, the reply slot a request carries.
#[verifier::external_type_specification]
#[verifier::external_body]
#[verifier::reject_recursive_types(T)]
pub struct ExOneshotSender<T>(tokio::sync::oneshot::Sender<T>);

/// Declares tokio's one-shot receiver, which the session's driver awaits.
#[verifier::external_type_specification]
#[verifier::external_body]
#[verifier::reject_recursive_types(T)]
pub struct ExOneshotReceiver<T>(tokio::sync::oneshot::Receiver<T>);

/// Declares the receiver's error type, reached through its `Future` impl.
#[verifier::external_type_specification]
#[verifier::external_body]
pub struct ExOneshotRecvError(tokio::sync::oneshot::error::RecvError);

/// Relies on tokio::sync::oneshot::channel: a fresh single-use channel pair.
#[verifier::external_body]
fn reply_channel() -> (tokio::sync::oneshot::Sender<Vec<u8>>, tokio::sync::oneshot::Receiver<
    Vec<u8>,
>) {
    tokio::sync::oneshot::channel()
}

/// Relies on tokio::sync::oneshot::Sender::send: delivers the value when the
/// receiver is still alive, and hands the value back as `Err` when it was
/// dropped.
#[verifier::external_body]
fn reply_send(tx: tokio::sync::oneshot::Sender<Vec<u8>>, value: Vec<u8>) -> (r: Result<
    (),
    Vec<u8>,
>)
    ensures
        r matches Err(v) ==> v@ == value@,
{
    tx.send(value)
}

/// One inbound request: the peer it came from, its payload, and the one-shot
/// slot a reply goes back through. Dropping it without responding is legal:
/// the peer never receives a reply for this id.
pub struct Request {
    source: u64,
    response: tokio::sync::oneshot::Sender<Vec<u8>>,
    msg: Vec<u8>,
}

impl Request {
    /// The key of the peer connection the request arrived on.
    pub closed spec fn source_spec(&self) -> u64 {
        self.source
    }

    /// The request payload.
    pub closed spec fn msg_spec(&self) -> Seq<u8> {
        self.msg@
    }

    pub fn new(source: u64, msg: Vec<u8>, response: tokio::sync::oneshot::Sender<Vec<u8>>) -> (r:
        Request)
        ensures
            r.source_spec() == source,
            r.msg_spec() == msg@,
    {
        Request { source, response, msg }
    }

    pub fn source(&self) -> (r: u64)
        ensures
            r == self.source_spec(),
    {
        self.source
    }

    pub fn msg(&self) -> (r: &Vec<u8>)
        ensures
            r@ == self.msg_spec(),
    {
        &self.msg
    }

    /// Completes the reply slot. Fails with `SocketClosed` only when the
    /// session that holds the receiving end is gone; the peer then never
    /// sees a reply for this id.
    pub fn respond(self, response: Vec<u8>) -> (r: Result<(), RepError>)
        ensures
            r matches Err(e) ==> e == RepError::SocketClosed,
    {
        match reply_send(self.response, response) {
            Ok(()) => Ok(()),
            Err(_) => Err(RepError::SocketClosed),
        }
    }
}

/// A reply socket's frontend state. It begins inactive; once the transport
/// is bound and the backend task is spawned the socket becomes active and
/// knows its local address. It can bind again later.
pub struct RepSocket {
    options: RepOptions,
    local_addr: Option<String>,
    active: bool,
}

impl RepSocket {
    /// The socket has a running backend.
    pub closed spec fn active_spec(&self) -> bool {
        self.active
    }

    /// The bound local address, once active.
    pub closed spec fn local_addr_spec(&self) -> Option<Seq<char>> {
        match self.local_addr {
            Some(a) => Some(a@),
            None => None,
        }
    }

    /// The connection limit the accept loop enforces.
    pub closed spec fn max_connections_spec(&self) -> Option<usize> {
        self.options.max_connections
    }

    /// Whether accepted connections are set to low-latency writes.
    pub closed spec fn nodelay_spec(&self) -> bool {
        self.options.set_nodelay
    }

    /// An inactive socket with default options.
    pub fn new() -> (r: RepSocket)
        ensures
            !r.active_spec(),
            r.local_addr_spec() is None,
            r.max_connections_spec() is None,
            r.nodelay_spec(),
    {
        RepSocket::new_with_options(RepOptions::default())
    }

    /// An inactive socket with the given options.
    pub fn new_with_options(options: RepOptions) -> (r: RepSocket)
        ensures
            !r.active_spec(),
            r.local_addr_spec() is None,
            r.max_connections_spec() == options.max_connections,
            r.nodelay_spec() == options.set_nodelay,
    {
        RepSocket { options, local_addr: None, active: false }
    }

    /// The connection limit, for the accept loop.
    pub fn max_connections(&self) -> (r: Option<usize>)
        ensures
            r == self.max_connections_spec(),
    {
        self.options.max_connections
    }

    /// Whether accepted connections get low-latency writes.
    pub fn set_nodelay(&self) -> (r: bool)
        ensures
            r == self.nodelay_spec(),
    {
        self.options.set_nodelay
    }

    /// The transport bound at `addr` and the backend was spawned: the socket
    /// becomes active at that address.
    pub fn on_bound(&mut self, addr: String)
        ensures
            final(self).active_spec(),
            final(self).local_addr_spec() == Some(addr@),
            final(self).max_connections_spec() == old(self).max_connections_spec(),
            final(self).nodelay_spec() == old(self).nodelay_spec(),
    {
        self.local_addr = Some(addr);
        self.active = true;
    }

    /// The local address, or nothing while inactive.
    pub fn local_addr(&self) -> (r: Option<&String>)
        ensures
            r matches Some(a) ==> self.local_addr_spec() == Some(a@),
            r is None ==> self.local_addr_spec() is None,
    {
        match &self.local_addr {
            Some(a) => Some(a),
            None => None,
        }
    }

    /// Whether a backend is running.
    pub fn is_active(&self) -> (r: bool)
        ensures
            r == self.active_spec(),
    {
        self.active
    }
}

/// What a reply socket is doing, seen from its backend.
#[derive(PartialEq, Eq, Structural, Clone, Copy, Debug)]
pub enum SessionStatus {
    /// Waiting for bytes from the peer.
    Reading,
    /// The egress queue holds replies awaiting the wire.
    Writing,
    /// The connection ended; the session is to be removed.
    Closed,
}

/// Per-connection state on the reply side: the inbound decoder, the FIFO
/// egress queue of replies awaiting write, and accounting for the response
/// slots handed out. Every request produced meets exactly one outcome:
/// its reply is enqueued, or its slot is dropped and the peer times out.
pub struct PeerSession {
    addr: u64,
    decoder: wire::Codec,
    egress: Vec<Message>,
    produced: u64,
    completed: u64,
    abandoned: u64,
    closed: bool,
}

impl PeerSession {
    /// The key of the peer connection.
    pub closed spec fn addr_spec(&self) -> u64 {
        self.addr
    }

    /// Bytes received and not yet decoded into a request.
    pub closed spec fn pending_bytes(&self) -> Seq<u8> {
        self.decoder.pending()
    }

    /// The per-frame payload maximum the inbound decoder enforces.
    pub closed spec fn max_spec(&self) -> int {
        self.decoder.max_spec()
    }

    /// The replies queued for the wire, oldest first.
    pub closed spec fn egress_spec(&self) -> Seq<(u32, Seq<u8>)> {
        self.egress@.map_values(|m: Message| (m.id, m.payload@))
    }

    /// Requests decoded and handed to the frontend.
    pub closed spec fn produced_spec(&self) -> int {
        self.produced as int
    }

    /// Response slots completed with a reply.
    pub closed spec fn completed_spec(&self) -> int {
        self.completed as int
    }

    /// Response slots dropped without a reply.
    pub closed spec fn abandoned_spec(&self) -> int {
        self.abandoned as int
    }

    /// Response slots still outstanding: every produced request is either
    /// answered, abandoned, or still pending — never two of these.
    pub open spec fn outstanding(&self) -> int {
        self.produced_spec() - self.completed_spec() - self.abandoned_spec()
    }

    pub closed spec fn closed_spec(&self) -> bool {
        self.closed
    }

    pub closed spec fn wf(&self) -> bool {
        &&& self.decoder.wf()
        &&& self.completed_spec() + self.abandoned_spec() <= self.produced_spec()
    }

    /// A fresh session for a newly accepted connection.
    pub fn new(addr: u64) -> (r: PeerSession)
        ensures
            r.wf(),
            r.addr_spec() == addr,
            r.max_spec() == wire::DEFAULT_MAX_PAYLOAD as int,
            r.pending_bytes() == Seq::<u8>::empty(),
            r.egress_spec() == Seq::<(u32, Seq<u8>)>::empty(),
            r.produced_spec() == 0,
            r.completed_spec() == 0,
            r.abandoned_spec() == 0,
            r.outstanding() == 0,
            !r.closed_spec(),
    {
        let r = PeerSession {
            addr,
            decoder: wire::Codec::new(),
            egress: Vec::new(),
            produced: 0,
            completed: 0,
            abandoned: 0,
            closed: false,
        };
        assert(r.egress_spec() =~= Seq::<(u32, Seq<u8>)>::empty());
        r
    }

    /// Feeds bytes read from the transport into the inbound decoder.
    pub fn on_bytes(&mut self, bytes: &Vec<u8>)
        requires
            old(self).wf(),
            old(self).pending_bytes().len() + bytes@.len() <= usize::MAX,
        ensures
            final(self).wf(),
            final(self).max_spec() == old(self).max_spec(),
            final(self).pending_bytes() == old(self).pending_bytes() + bytes@,
            final(self).egress_spec() == old(self).egress_spec(),
            final(self).outstanding() == old(self).outstanding(),
            final(self).produced_spec() == old(self).produced_spec(),
            final(self).addr_spec() == old(self).addr_spec(),
            final(self).closed_spec() == old(self).closed_spec(),
    {
        self.decoder.feed(bytes);
    }

    /// Tries to decode one request from the pending bytes: a request is
    /// yielded exactly when a complete frame within the size limit is
    /// pending, and only that frame's bytes are consumed; a partial frame
    /// yields nothing and discards nothing. On success a fresh reply slot is
    /// handed out with the request and the outstanding count grows by one.
    /// A header that over-declares its length closes the session.
    pub fn poll_inbound(&mut self) -> (r: Result<
        Option<(Request, u32, tokio::sync::oneshot::Receiver<Vec<u8>>)>,
        WireError,
    >)
        requires
            old(self).wf(),
            old(self).produced_spec() < u64::MAX,
        ensures
            final(self).wf(),
            final(self).addr_spec() == old(self).addr_spec(),
            final(self).max_spec() == old(self).max_spec(),
            final(self).egress_spec() == old(self).egress_spec(),
            final(self).completed_spec() == old(self).completed_spec(),
            final(self).abandoned_spec() == old(self).abandoned_spec(),
            old(self).pending_bytes().len() < 8 ==> (r matches Ok(x) && x is None),
            old(self).pending_bytes().len() >= 8 && wire::hdr_len(old(self).pending_bytes()) > old(
                self,
            ).max_spec() ==> (r matches Err(e) && e matches WireError::LengthExceeded(mx)
                && mx as int == old(self).max_spec()),
            old(self).pending_bytes().len() >= 8 && wire::hdr_len(old(self).pending_bytes()) <= old(
                self,
            ).max_spec() && !wire::frame_complete(old(self).pending_bytes()) ==> (r matches Ok(x)
                && x is None),
            old(self).pending_bytes().len() >= 8 && wire::hdr_len(old(self).pending_bytes()) <= old(
                self,
            ).max_spec() && wire::frame_complete(old(self).pending_bytes()) ==> (r matches Ok(x)
                && x is Some),
            r matches Ok(Some((req, id, _))) ==> {
                &&& req.source_spec() == old(self).addr_spec()
                &&& old(self).pending_bytes().len() >= 8
                &&& wire::frame_complete(old(self).pending_bytes())
                &&& req.msg_spec() == wire::parsed_payload(old(self).pending_bytes())
                &&& id == wire::parsed_id(old(self).pending_bytes())
                &&& final(self).produced_spec() == old(self).produced_spec() + 1
                &&& final(self).outstanding() == old(self).outstanding() + 1
                &&& final(self).pending_bytes() == old(self).pending_bytes().skip(
                    8 + wire::hdr_len(old(self).pending_bytes()),
                )
                &&& final(self).closed_spec() == old(self).closed_spec()
            },
            r matches Ok(None) ==> final(self).produced_spec() == old(self).produced_spec()
                && final(self).pending_bytes() == old(self).pending_bytes()
                && final(self).closed_spec() == old(self).closed_spec(),
            r matches Err(_) ==> final(self).closed_spec() && final(self).produced_spec() == old(
                self,
            ).produced_spec() && final(self).pending_bytes() == old(self).pending_bytes(),
    {
        match self.decoder.decode() {
            Ok(None) => Ok(None),
            Ok(Some(m)) => {
                self.produced = self.produced + 1;
                let (tx, rx) = reply_channel();
                let id = m.id();
                let req = Request { source: self.addr, response: tx, msg: m.into_payload() };
                Ok(Some((req, id, rx)))
            },
            Err(e) => {
                self.closed = true;
                Err(e)
            },
        }
    }

    /// A response slot completed with `(id, payload)`: the reply is appended
    /// to the egress queue carrying the id of its own request, whatever order
    /// completions arrive in.
    pub fn on_response_complete(&mut self, id: u32, payload: Vec<u8>)
        requires
            old(self).wf(),
            old(self).outstanding() > 0,
        ensures
            final(self).wf(),
            final(self).addr_spec() == old(self).addr_spec(),
            final(self).egress_spec() == old(self).egress_spec().push((id, payload@)),
            final(self).completed_spec() == old(self).completed_spec() + 1,
            final(self).outstanding() == old(self).outstanding() - 1,
            final(self).produced_spec() == old(self).produced_spec(),
            final(self).pending_bytes() == old(self).pending_bytes(),
            final(self).closed_spec() == old(self).closed_spec(),
    {
        self.completed = self.completed + 1;
        self.egress.push(Message::new(id, payload));
        assert(self.egress_spec() =~= old(self).egress_spec().push((id, payload@)));
    }

    /// A response slot was dropped without a reply: the request's outcome is
    /// to be silently discarded; the requesting side will time out.
    pub fn on_response_abandoned(&mut self)
        requires
            old(self).wf(),
            old(self).outstanding() > 0,
        ensures
            final(self).wf(),
            final(self).addr_spec() == old(self).addr_spec(),
            final(self).egress_spec() == old(self).egress_spec(),
            final(self).abandoned_spec() == old(self).abandoned_spec() + 1,
            final(self).outstanding() == old(self).outstanding() - 1,
            final(self).produced_spec() == old(self).produced_spec(),
            final(self).pending_bytes() == old(self).pending_bytes(),
            final(self).closed_spec() == old(self).closed_spec(),
    {
        self.abandoned = self.abandoned + 1;
    }

    /// Pops the oldest queued reply for the wire, if any.
    pub fn pop_egress(&mut self) -> (r: Option<Message>)
        requires
            old(self).wf(),
        ensures
            final(self).wf(),
            final(self).addr_spec() == old(self).addr_spec(),
            final(self).outstanding() == old(self).outstanding(),
            final(self).pending_bytes() == old(self).pending_bytes(),
            final(self).produced_spec() == old(self).produced_spec(),
            final(self).closed_spec() == old(self).closed_spec(),
            old(self).egress_spec().len() == 0 ==> r is None && final(self).egress_spec() == old(
                self,
            ).egress_spec(),
            old(self).egress_spec().len() > 0 ==> (r matches Some(m) && (m.id, m.payload@) == old(
                self,
            ).egress_spec()[0] && final(self).egress_spec() == old(self).egress_spec().drop_first()),
    {
        if self.egress.len() == 0 {
            None
        } else {
            let m = self.egress.remove(0);
            assert(self.egress_spec() =~= old(self).egress_spec().drop_first());
            Some(m)
        }
    }

    /// The connection ended or failed: the session closes and is to be
    /// removed from the backend's map.
    pub fn close(&mut self)
        requires
            old(self).wf(),
        ensures
            final(self).wf(),
            final(self).closed_spec(),
            final(self).addr_spec() == old(self).addr_spec(),
    {
        self.closed = true;
    }

    /// The transport reached end of stream: the session closes either way,
    /// and leftover bytes that form no whole frame mean the peer truncated
    /// a frame.
    pub fn on_eof(&mut self) -> (r: Result<(), WireError>)
        requires
            old(self).wf(),
        ensures
            final(self).wf(),
            final(self).closed_spec(),
            final(self).addr_spec() == old(self).addr_spec(),
            final(self).egress_spec() == old(self).egress_spec(),
            final(self).outstanding() == old(self).outstanding(),
            final(self).pending_bytes() == old(self).pending_bytes(),
            r == Ok::<(), WireError>(()) <==> old(self).pending_bytes().len() == 0,
            old(self).pending_bytes().len() > 0 ==> r == Err::<(), WireError>(
                WireError::Truncated,
            ),
    {
        self.closed = true;
        self.decoder.finish()
    }

    /// What the session is doing: closed sessions are removed, a non-empty
    /// egress queue means writing, otherwise it waits to read.
    pub fn status(&self) -> (r: SessionStatus)
        ensures
            self.closed_spec() ==> r == SessionStatus::Closed,
            !self.closed_spec() && self.egress_spec().len() > 0 ==> r == SessionStatus::Writing,
            !self.closed_spec() && self.egress_spec().len() == 0 ==> r == SessionStatus::Reading,
    {
        if self.closed {
            SessionStatus::Closed
        } else if self.egress.len() > 0 {
            SessionStatus::Writing
        } else {
            SessionStatus::Reading
        }
    }

    /// Response slots handed out and not yet resolved.
    pub fn outstanding_slots(&self) -> (r: u64)
        requires
            self.wf(),
        ensures
            r as int == self.outstanding(),
    {
        self.produced - self.completed - self.abandoned
    }
}

/// The egress queue after a sequence of response completions, applied in
/// completion order: each step appends its reply exactly as
/// `on_response_complete` states.
pub open spec fn egress_after(
    start: Seq<(u32, Seq<u8>)>,
    completions: Seq<(u32, Seq<u8>)>,
) -> Seq<(u32, Seq<u8>)>
    decreases completions.len(),
{
    if completions.len() == 0 {
        start
    } else {
        egress_after(start.push(completions[0]), completions.drop_first())
    }
}

/// Id correlation, for any number of requests: however the response
/// completions are ordered — reverse order of arrival included — the reply
/// wire order is exactly the completion order and every reply goes out under
/// its own request's id with its own payload: none is lost, none is handed
/// another's id or payload.
pub proof fn lemma_replies_keep_their_ids(
    start: Seq<(u32, Seq<u8>)>,
    completions: Seq<(u32, Seq<u8>)>,
)
    ensures
        egress_after(start, completions) == start + completions,
    decreases completions.len(),
{
    if completions.len() == 0 {
        assert(egress_after(start, completions) =~= start + completions);
    } else {
        lemma_replies_keep_their_ids(start.push(completions[0]), completions.drop_first());
        assert(start.push(completions[0]) + completions.drop_first() =~= start + completions);
    }
}

/// Echo round trip: a reply produced by echoing a request's payload under its
/// id encodes to a frame that parses back to exactly that id and payload.
/// Chained with the decode contract on the requesting side, the response a
/// caller sees equals what the responder sent for its own id.
pub proof fn lemma_echo_round_trip(id: u32, payload: Seq<u8>, rest: Seq<u8>)
    requires
        payload.len() <= u32::MAX,
    ensures
        ({
            let b = wire::frame(id, payload) + rest;
            wire::frame_complete(b) && wire::parsed_id(b) == id && wire::parsed_payload(b)
                == payload && b.skip(8 + wire::hdr_len(b)) == rest
        }),
{
    wire::lemma_frame_round_trip(id, payload, rest);
}

} // verus!
