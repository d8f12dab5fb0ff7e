use msg_socket::backend::{AcceptDecision, PeerMap};
use msg_socket::rep::{PeerSession, RepError, RepOptions, RepSocket, Request, SessionStatus};
use msg_socket::wire;

#[test]
fn rep_options_default() {
    let o = RepOptions::default();
    assert!(o.set_nodelay);
    assert!(o.max_connections.is_none());
}

#[test]
fn socket_lifecycle() {
    let mut s = RepSocket::new();
    assert!(!s.is_active());
    assert!(s.local_addr().is_none());
    s.on_bound("127.0.0.1:4444".to_string());
    assert!(s.is_active());
    assert_eq!(s.local_addr().unwrap(), "127.0.0.1:4444");
}

#[test]
fn socket_options_carry_over() {
    let s = RepSocket::new_with_options(RepOptions {
        set_nodelay: false,
        max_connections: Some(3),
    });
    assert!(!s.is_active());
}

#[test]
fn request_respond_delivers_payload() {
    let (tx, mut rx) = tokio::sync::oneshot::channel();
    let req = Request::new(1, b"ping".to_vec(), tx);
    assert_eq!(req.source(), 1);
    assert_eq!(req.msg(), &b"ping".to_vec());
    req.respond(b"pong".to_vec()).unwrap();
    assert_eq!(rx.try_recv().unwrap(), b"pong".to_vec());
}

#[test]
fn request_respond_after_receiver_dropped() {
    let (tx, rx) = tokio::sync::oneshot::channel();
    drop(rx);
    let req = Request::new(1, b"ping".to_vec(), tx);
    assert_eq!(req.respond(b"pong".to_vec()), Err(RepError::SocketClosed));
}

// Scenario: an echo exchange through a peer session. The request `b"ping"`
// goes over the wire, the responder answers `b"pong"`, and the reply frame
// decodes back under the request's id.
#[test]
fn echo_exchange() {
    let mut session = PeerSession::new(7);
    assert_eq!(session.status(), SessionStatus::Reading);

    let request_bytes = wire::encode(&wire::Message::new(42, b"ping".to_vec()));
    session.on_bytes(&request_bytes);
    let (req, _id, mut rx) = session.poll_inbound().unwrap().unwrap();
    assert_eq!(req.source(), 7);
    assert_eq!(req.msg(), &b"ping".to_vec());
    assert_eq!(session.outstanding_slots(), 1);

    req.respond(b"pong".to_vec()).unwrap();
    let reply = rx.try_recv().unwrap();
    session.on_response_complete(42, reply);
    assert_eq!(session.outstanding_slots(), 0);
    assert_eq!(session.status(), SessionStatus::Writing);

    let out = session.pop_egress().unwrap();
    let reply_bytes = wire::encode(&out);
    let mut client = wire::Codec::new();
    client.feed(&reply_bytes);
    let got = client.decode().unwrap().unwrap();
    assert_eq!(got.id(), 42);
    assert_eq!(got.into_payload(), b"pong".to_vec());
    assert_eq!(session.status(), SessionStatus::Reading);
}

// Replies produced in reverse order of request arrival still go out under
// their own ids.
#[test]
fn reverse_order_replies_keep_ids() {
    let mut session = PeerSession::new(1);
    let mut bytes = wire::encode(&wire::Message::new(10, b"first".to_vec()));
    bytes.extend_from_slice(&wire::encode(&wire::Message::new(11, b"second".to_vec())));
    session.on_bytes(&bytes);
    let (req_a, _ida, rx_a) = session.poll_inbound().unwrap().unwrap();
    let (req_b, _idb, rx_b) = session.poll_inbound().unwrap().unwrap();
    assert_eq!(session.outstanding_slots(), 2);

    // The later request is answered first.
    req_b.respond(b"SECOND".to_vec()).unwrap();
    req_a.respond(b"FIRST".to_vec()).unwrap();
    let mut rx_b = rx_b;
    let mut rx_a = rx_a;
    session.on_response_complete(11, rx_b.try_recv().unwrap());
    session.on_response_complete(10, rx_a.try_recv().unwrap());

    let first_out = session.pop_egress().unwrap();
    let second_out = session.pop_egress().unwrap();
    assert_eq!(first_out.id(), 11);
    assert_eq!(first_out.into_payload(), b"SECOND".to_vec());
    assert_eq!(second_out.id(), 10);
    assert_eq!(second_out.into_payload(), b"FIRST".to_vec());
    assert!(session.pop_egress().is_none());
}

#[test]
fn dropped_request_is_abandoned() {
    let mut session = PeerSession::new(1);
    let bytes = wire::encode(&wire::Message::new(5, b"q".to_vec()));
    session.on_bytes(&bytes);
    let (req, _id, mut rx) = session.poll_inbound().unwrap().unwrap();
    drop(req);
    assert!(rx.try_recv().is_err());
    session.on_response_abandoned();
    assert_eq!(session.outstanding_slots(), 0);
    assert!(session.pop_egress().is_none());
}

#[test]
fn codec_error_closes_session() {
    let mut session = PeerSession::new(1);
    // A header that declares a payload larger than the default maximum.
    let bad = vec![0, 0, 0, 1, 0xFF, 0xFF, 0xFF, 0xFF];
    session.on_bytes(&bad);
    assert!(session.poll_inbound().is_err());
    assert_eq!(session.status(), SessionStatus::Closed);
}

#[test]
fn accept_respects_authentication() {
    let mut peers = PeerMap::new(None);
    assert_eq!(peers.on_accept(1, false), AcceptDecision::RejectedAuth);
    assert!(!peers.contains(1));
    assert_eq!(peers.on_accept(1, true), AcceptDecision::Accepted);
    assert!(peers.contains(1));
    assert_eq!(peers.len(), 1);
}

#[test]
fn accept_respects_max_connections() {
    let mut peers = PeerMap::new(Some(1));
    assert_eq!(peers.on_accept(1, true), AcceptDecision::Accepted);
    assert_eq!(peers.on_accept(2, true), AcceptDecision::RejectedFull);
    assert!(!peers.contains(2));
    peers.on_peer_closed(1);
    assert!(!peers.contains(1));
    assert_eq!(peers.on_accept(2, true), AcceptDecision::Accepted);
}

#[test]
fn ingress_backpressure_rule() {
    // A full frontend channel halts peer-ingress reads; draining resumes them.
    let capacity = 4;
    assert!(msg_socket::backend::ingress_allowed(0, capacity));
    assert!(msg_socket::backend::ingress_allowed(3, capacity));
    assert!(!msg_socket::backend::ingress_allowed(4, capacity));
    assert!(msg_socket::backend::ingress_allowed(3, capacity));
}

// Backpressure keeps data: while the channel is full the bytes stay pending
// in the session and decode later, with nothing lost.
#[test]
fn backpressure_loses_no_data() {
    let mut session = PeerSession::new(1);
    let bytes = wire::encode(&wire::Message::new(77, b"kept".to_vec()));
    session.on_bytes(&bytes);
    // Channel full: the backend does not poll inbound. The bytes wait.
    assert!(!msg_socket::backend::ingress_allowed(4, 4));
    // Capacity returned: the same request decodes intact.
    assert!(msg_socket::backend::ingress_allowed(0, 4));
    let (req, _id, _rx) = session.poll_inbound().unwrap().unwrap();
    assert_eq!(req.msg(), &b"kept".to_vec());
}

#[test]
fn oversize_header_reports_length_exceeded() {
    let mut session = PeerSession::new(1);
    // A header that declares a payload larger than the default maximum.
    let bad = vec![0, 0, 0, 1, 0xFF, 0xFF, 0xFF, 0xFF];
    session.on_bytes(&bad);
    match session.poll_inbound() {
        Err(e) => assert_eq!(e, wire::WireError::LengthExceeded(wire::DEFAULT_MAX_PAYLOAD)),
        Ok(_) => panic!("an over-declared header must be refused"),
    }
    assert_eq!(session.status(), SessionStatus::Closed);
}

#[test]
fn clean_eof_closes_session() {
    let mut session = PeerSession::new(1);
    let bytes = wire::encode(&wire::Message::new(3, b"done".to_vec()));
    session.on_bytes(&bytes);
    let _ = session.poll_inbound().unwrap().unwrap();
    assert_eq!(session.on_eof(), Ok(()));
    assert_eq!(session.status(), SessionStatus::Closed);
}

#[test]
fn eof_mid_frame_is_truncated() {
    let mut session = PeerSession::new(1);
    let bytes = wire::encode(&wire::Message::new(3, b"cut".to_vec()));
    session.on_bytes(&bytes[..bytes.len() - 1].to_vec());
    assert!(session.poll_inbound().unwrap().is_none());
    assert_eq!(session.on_eof(), Err(wire::WireError::Truncated));
    assert_eq!(session.status(), SessionStatus::Closed);
}

#[test]
fn socket_exposes_options() {
    let s = RepSocket::new_with_options(RepOptions {
        set_nodelay: false,
        max_connections: Some(3),
    });
    assert_eq!(s.max_connections(), Some(3));
    assert!(!s.set_nodelay());
    let d = RepSocket::new();
    assert_eq!(d.max_connections(), None);
    assert!(d.set_nodelay());
}
