use msg_socket::auth::{ack_byte, auth_outcome, decode_auth, encode_auth, parse_ack};
use msg_socket::reqtable::{request_disposition, Disposition, PendingTable, ReqError};
use msg_socket::wire::WireError;

#[test]
fn alloc_ids_are_monotonic() {
    let mut table: PendingTable<u32> = PendingTable::new();
    assert_eq!(table.alloc_id(), 0);
    assert_eq!(table.alloc_id(), 1);
    assert_eq!(table.alloc_id(), 2);
}

#[test]
fn insert_remove_by_id() {
    let mut table: PendingTable<&'static str> = PendingTable::new();
    table.insert(1, 100, "one");
    table.insert(2, 200, "two");
    assert!(table.contains(1));
    assert!(table.contains(2));
    assert!(!table.contains(3));
    assert_eq!(table.len(), 2);
    assert_eq!(table.remove(2), Some((200, "two")));
    assert_eq!(table.remove(2), None);
    assert!(table.contains(1));
    assert_eq!(table.len(), 1);
}

// Replies arriving in reverse order of request submission each reach their
// own slot: no cross-talk between outstanding ids.
#[test]
fn reverse_order_completion_no_cross_talk() {
    let mut table: PendingTable<Vec<u8>> = PendingTable::new();
    let mut ids = Vec::new();
    for i in 0..64u32 {
        let id = table.alloc_id();
        table.insert(id, 1000, format!("reply-{i}").into_bytes());
        ids.push(id);
    }
    for (i, id) in ids.iter().enumerate().rev() {
        let (_, slot) = table.remove(*id).unwrap();
        assert_eq!(slot, format!("reply-{i}").into_bytes());
    }
    assert_eq!(table.len(), 0);
}

// Timer expiry: entries at or past their deadline leave the table and are
// reported, to be completed with `Timeout`; later deadlines stay untouched.
#[test]
fn expire_removes_past_deadlines() {
    let mut table: PendingTable<&'static str> = PendingTable::new();
    table.insert(1, 200, "early");
    table.insert(2, 500, "late");
    table.insert(3, 250, "mid");
    let expired = table.expire(250);
    let mut expired_ids: Vec<u32> = expired.iter().map(|e| e.0).collect();
    expired_ids.sort();
    assert_eq!(expired_ids, vec![1, 3]);
    assert!(!table.contains(1));
    assert!(!table.contains(3));
    assert!(table.contains(2));
    assert_eq!(table.remove(2), Some((500, "late")));
}

#[test]
fn expire_before_deadline_removes_nothing() {
    let mut table: PendingTable<&'static str> = PendingTable::new();
    table.insert(7, 200, "pending");
    assert!(table.expire(199).is_empty());
    assert!(table.contains(7));
}

#[test]
fn disposition_by_connection_state() {
    assert_eq!(request_disposition(true, true), Disposition::Send);
    assert_eq!(request_disposition(true, false), Disposition::Send);
    assert_eq!(request_disposition(false, true), Disposition::Queue);
    assert_eq!(request_disposition(false, false), Disposition::FailFast);
}

#[test]
fn auth_frame_round_trip() {
    let token = b"client-identity".to_vec();
    let bytes = encode_auth(&token);
    assert_eq!(&bytes[0..4], &(token.len() as u32).to_be_bytes());
    let (got, used) = decode_auth(&bytes, 1 << 20).unwrap().unwrap();
    assert_eq!(got, token);
    assert_eq!(used, bytes.len());
}

#[test]
fn auth_frame_incomplete_waits() {
    let bytes = encode_auth(&b"token".to_vec());
    assert_eq!(decode_auth(&bytes[..3].to_vec(), 1 << 20), Ok(None));
    assert_eq!(decode_auth(&bytes[..6].to_vec(), 1 << 20), Ok(None));
}

#[test]
fn auth_frame_oversize_rejected() {
    let bytes = encode_auth(&b"long-token".to_vec());
    assert_eq!(decode_auth(&bytes, 4), Err(WireError::LengthExceeded(4)));
}

#[test]
fn ack_bytes_and_outcomes() {
    assert_eq!(ack_byte(true), 0x01);
    assert_eq!(ack_byte(false), 0x00);
    assert_eq!(parse_ack(0x01), Ok(true));
    assert_eq!(parse_ack(0x00), Ok(false));
    assert_eq!(parse_ack(0x42), Err(WireError::Invalid));
    assert_eq!(auth_outcome(true), Ok(()));
    assert_eq!(auth_outcome(false), Err(ReqError::AuthRejected));
}

// Scenario: many requests pipelined in batches, completed out of order
// within each batch; every caller gets back the payload sent for its own id.
#[test]
fn pipelined_batches_complete_correctly() {
    let par_factor = 64;
    let n_reqs = 10_000;
    let mut table: PendingTable<Vec<u8>> = PendingTable::new();
    let mut done = 0u32;
    while done < n_reqs {
        let batch = par_factor.min(n_reqs - done);
        let mut ids = Vec::new();
        for _ in 0..batch {
            let id = table.alloc_id();
            table.insert(id, u64::MAX, id.to_be_bytes().to_vec());
            ids.push(id);
        }
        for id in ids.iter().rev() {
            let (_, slot) = table.remove(*id).unwrap();
            assert_eq!(slot, id.to_be_bytes().to_vec());
        }
        done += batch;
    }
    assert_eq!(table.len(), 0);
    assert_eq!(table.alloc_id(), n_reqs);
}
