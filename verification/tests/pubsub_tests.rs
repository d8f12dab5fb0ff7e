use msg_socket::pubsub::{deliver, SessionRing, SubscriptionSet, DEFAULT_SESSION_BUFFER_SIZE};
use msg_socket::pubsub_wire::{decode_pubsub, encode_pubsub, PubSubFrame};
use msg_socket::wire::WireError;

#[test]
fn subscription_set_basics() {
    let mut subs = SubscriptionSet::new();
    assert!(!subs.contains(&b"T".to_vec()));
    subs.subscribe(b"T".to_vec());
    assert!(subs.contains(&b"T".to_vec()));
    subs.subscribe(b"T".to_vec());
    assert!(subs.contains(&b"T".to_vec()));
    subs.subscribe(b"U".to_vec());
    subs.unsubscribe(&b"T".to_vec());
    assert!(!subs.contains(&b"T".to_vec()));
    assert!(subs.contains(&b"U".to_vec()));
}

#[test]
fn default_session_buffer_size() {
    assert_eq!(DEFAULT_SESSION_BUFFER_SIZE, 1024);
}

// Topic filter soundness: a session subscribed to exactly "T" receives every
// publish on "T" and none on another topic.
#[test]
fn topic_filter_soundness() {
    let mut subs = SubscriptionSet::new();
    subs.subscribe(b"T".to_vec());
    let mut ring = SessionRing::new(16);
    for i in 0..5u8 {
        assert!(deliver(&mut ring, &subs, &b"T".to_vec(), vec![i]));
        assert!(!deliver(&mut ring, &subs, &b"other".to_vec(), vec![i]));
    }
    assert_eq!(ring.len(), 5);
    assert_eq!(ring.dropped_count(), 0);
}

// Scenario: fan-out of 100 publishes to two subscribers of topic "T"; each
// receives all 100, in publish order.
#[test]
fn pub_fanout_two_subscribers() {
    let mut subs_a = SubscriptionSet::new();
    let mut subs_b = SubscriptionSet::new();
    subs_a.subscribe(b"T".to_vec());
    subs_b.subscribe(b"T".to_vec());
    let mut ring_a = SessionRing::new(128);
    let mut ring_b = SessionRing::new(128);
    for i in 0..100u8 {
        let frame = vec![i];
        assert!(deliver(&mut ring_a, &subs_a, &b"T".to_vec(), frame.clone()));
        assert!(deliver(&mut ring_b, &subs_b, &b"T".to_vec(), frame));
    }
    for i in 0..100u8 {
        assert_eq!(ring_a.pop().unwrap(), vec![i]);
        assert_eq!(ring_b.pop().unwrap(), vec![i]);
    }
    assert!(ring_a.pop().is_none());
    assert!(ring_b.pop().is_none());
}

// Scenario: a subscriber that never reads. The ring keeps the newest
// `session_buffer_size` frames; the drop counter accounts for every frame
// not delivered and not queued.
#[test]
fn slow_subscriber_drops_oldest() {
    let mut ring = SessionRing::new(16);
    for i in 0..1000u64 {
        ring.push(i.to_be_bytes().to_vec());
    }
    assert_eq!(ring.len(), 16);
    assert_eq!(ring.dropped_count(), 1000 - 16);
    // The oldest queued frame is the first not dropped.
    assert_eq!(ring.pop().unwrap(), 984u64.to_be_bytes().to_vec());
    let mut delivered = 1u64;
    while ring.pop().is_some() {
        delivered += 1;
    }
    assert_eq!(delivered, 16);
    // dropped == published - delivered once the ring is drained.
    assert_eq!(ring.dropped_count(), 1000 - delivered);
}

// Scenario: unsubscribe stops delivery. After five delivered messages and an
// unsubscribe, ten further publishes put nothing more in the ring.
#[test]
fn unsubscribe_stops_delivery() {
    let mut subs = SubscriptionSet::new();
    subs.subscribe(b"T".to_vec());
    let mut ring = SessionRing::new(32);
    for i in 0..5u8 {
        assert!(deliver(&mut ring, &subs, &b"T".to_vec(), vec![i]));
    }
    subs.unsubscribe(&b"T".to_vec());
    for i in 0..10u8 {
        assert!(!deliver(&mut ring, &subs, &b"T".to_vec(), vec![i]));
    }
    let mut received = 0u32;
    while ring.pop().is_some() {
        received += 1;
    }
    assert_eq!(received, 5);
}

#[test]
fn pubsub_data_frame_round_trip() {
    let f = PubSubFrame::Data { topic: b"T".to_vec(), payload: b"hello".to_vec() };
    let bytes = encode_pubsub(&f);
    assert_eq!(bytes[0], 0x01);
    assert_eq!(&bytes[1..3], &[0, 1]);
    let (got, used) = decode_pubsub(&bytes, 1 << 20).unwrap().unwrap();
    assert_eq!(used, bytes.len());
    match got {
        PubSubFrame::Data { topic, payload } => {
            assert_eq!(topic, b"T".to_vec());
            assert_eq!(payload, b"hello".to_vec());
        },
        _ => panic!("wrong frame kind"),
    }
}

#[test]
fn pubsub_control_frame_round_trip() {
    let f = PubSubFrame::Subscribe { topic: b"topic".to_vec() };
    let bytes = encode_pubsub(&f);
    assert_eq!(bytes[0], 0x02);
    let (got, used) = decode_pubsub(&bytes, 1 << 20).unwrap().unwrap();
    assert_eq!(used, bytes.len());
    match got {
        PubSubFrame::Subscribe { topic } => assert_eq!(topic, b"topic".to_vec()),
        _ => panic!("wrong frame kind"),
    }

    let f = PubSubFrame::Unsubscribe { topic: b"topic".to_vec() };
    let bytes = encode_pubsub(&f);
    assert_eq!(bytes[0], 0x03);
    let (got, _) = decode_pubsub(&bytes, 1 << 20).unwrap().unwrap();
    match got {
        PubSubFrame::Unsubscribe { topic } => assert_eq!(topic, b"topic".to_vec()),
        _ => panic!("wrong frame kind"),
    }
}

#[test]
fn pubsub_unknown_tag_is_invalid() {
    let bytes = vec![0x7F, 0, 1, b'T'];
    assert_eq!(decode_pubsub(&bytes, 1 << 20), Err(WireError::Invalid));
}

#[test]
fn pubsub_incomplete_frame_waits() {
    let f = PubSubFrame::Data { topic: b"T".to_vec(), payload: b"hello".to_vec() };
    let bytes = encode_pubsub(&f);
    for cut in [0usize, 1, 2, 3, 5, bytes.len() - 1] {
        assert_eq!(decode_pubsub(&bytes[..cut].to_vec(), 1 << 20), Ok(None));
    }
}

#[test]
fn pubsub_oversize_payload_rejected() {
    let f = PubSubFrame::Data { topic: b"T".to_vec(), payload: b"hello".to_vec() };
    let bytes = encode_pubsub(&f);
    assert_eq!(decode_pubsub(&bytes, 4), Err(WireError::LengthExceeded(4)));
}

#[test]
fn sub_driver_broadcasts_control_frames() {
    let mut driver = msg_socket::sub::SubDriver::new();
    assert_eq!(driver.topic_count(), 0);

    let frame = driver.subscribe(&b"T".to_vec());
    let (got, _) = decode_pubsub(&frame, 1 << 20).unwrap().unwrap();
    assert_eq!(got, PubSubFrame::Subscribe { topic: b"T".to_vec() });

    let frame = driver.unsubscribe(&b"T".to_vec());
    let (got, _) = decode_pubsub(&frame, 1 << 20).unwrap().unwrap();
    assert_eq!(got, PubSubFrame::Unsubscribe { topic: b"T".to_vec() });
    assert_eq!(driver.topic_count(), 0);
}

// On reconnect the whole subscription set is replayed: one subscribe frame
// per remembered topic, each decoding to that topic.
#[test]
fn sub_driver_replays_set_on_reconnect() {
    let mut driver = msg_socket::sub::SubDriver::new();
    driver.subscribe(&b"alpha".to_vec());
    driver.subscribe(&b"beta".to_vec());
    driver.subscribe(&b"alpha".to_vec());
    assert_eq!(driver.topic_count(), 2);

    let mut replayed = Vec::new();
    for i in 0..driver.topic_count() {
        let frame = driver.replay_frame(i);
        match decode_pubsub(&frame, 1 << 20).unwrap().unwrap().0 {
            PubSubFrame::Subscribe { topic } => replayed.push(topic),
            _ => panic!("replay must be a subscribe frame"),
        }
    }
    replayed.sort();
    assert_eq!(replayed, vec![b"alpha".to_vec(), b"beta".to_vec()]);
}

#[test]
fn default_ingress_buffer_size() {
    assert_eq!(msg_socket::sub::DEFAULT_INGRESS_BUFFER_SIZE, 1024);
}

// The drop counter is visible through the fan-out step itself: a full ring
// fed via deliver counts exactly the overflowed frames.
#[test]
fn deliver_tracks_drop_counter() {
    let mut subs = SubscriptionSet::new();
    subs.subscribe(b"T".to_vec());
    let mut ring = SessionRing::new(4);
    for i in 0..10u8 {
        assert!(deliver(&mut ring, &subs, &b"T".to_vec(), vec![i]));
    }
    assert_eq!(ring.dropped_count(), 6);
    assert_eq!(ring.len(), 4);
    assert_eq!(ring.pop().unwrap(), vec![6u8]);
}
