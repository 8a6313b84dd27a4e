//! Scenario tests driving the whole-system broadcast model.

use hashtable_ipc::broadcast::PublishOutcome;
use hashtable_ipc::model::{BroadcastModel, ClientPhase};
use hashtable_ipc::records::{
    handle_request, make_request, Key, RequestPayload, ResponsePayload, TableOutcome,
};
use hashtable_ipc::request_ring::RequestQueue;
use hashtable_ipc::session::ClientSession;
use hashtable_ipc::workload::{bucket_contains, delete_outcome, expect_inserted};

fn key(s: &str) -> Key {
    Key::from_bytes(s.as_bytes()).unwrap()
}

fn payload_of(m: &mut BroadcastModel, idx: usize, session: &mut ClientSession) -> ResponsePayload {
    let msg = m.receive(idx).expect("response should be ready");
    assert!(session.note_received(&msg), "response should be addressed to this client");
    msg.payload
}

/// One client, one worker: insert, read back, delete, delete again.
#[test]
fn solo_round_trip() {
    let client_id: u32 = 0x1234_5678;
    let mut queue = RequestQueue::new();
    let mut m = BroadcastModel::new(64);
    let idx = m.join();
    let mut session = ClientSession::new(client_id, 0);

    // the external collaborator: a one-bucket table
    let mut table: Vec<(Key, u32)> = Vec::new();

    // Insert("foo", 7)
    assert!(queue.try_enqueue(make_request(client_id, 0, RequestPayload::Insert(key("foo"), 7))));
    let req = queue.try_dequeue().unwrap();
    assert_eq!(req.request_id, 0);
    table.push((key("foo"), 7));
    let resp = handle_request(&req, TableOutcome::Stored);
    assert_eq!(resp.client_id, client_id);
    assert_eq!(resp.request_id, 0);
    assert!(matches!(m.publish(resp), PublishOutcome::Published { pos: 0 }));
    let payload = payload_of(&mut m, idx, &mut session);
    assert!(expect_inserted(&payload).is_ok());

    // ReadBucket("foo") yields a bucket containing ("foo", 7)
    assert!(queue.try_enqueue(make_request(client_id, 1, RequestPayload::ReadBucket(key("foo")))));
    let req = queue.try_dequeue().unwrap();
    let resp = handle_request(&req, TableOutcome::Bucket(table.clone()));
    assert!(matches!(m.publish(resp), PublishOutcome::Published { pos: 1 }));
    let payload = payload_of(&mut m, idx, &mut session);
    assert!(bucket_contains(&payload, &key("foo"), 7));
    assert!(!bucket_contains(&payload, &key("bar"), 7));
    assert!(!bucket_contains(&payload, &key("foo"), 8));

    // Delete("foo") succeeds, a second delete finds nothing
    table.clear();
    assert!(queue.try_enqueue(make_request(client_id, 2, RequestPayload::Delete(key("foo")))));
    let req = queue.try_dequeue().unwrap();
    let resp = handle_request(&req, TableOutcome::Removed);
    assert!(matches!(m.publish(resp), PublishOutcome::Published { .. }));
    let payload = payload_of(&mut m, idx, &mut session);
    assert!(matches!(payload, ResponsePayload::Deleted));

    assert!(queue.try_enqueue(make_request(client_id, 3, RequestPayload::Delete(key("foo")))));
    let req = queue.try_dequeue().unwrap();
    let resp = handle_request(&req, TableOutcome::Missing);
    assert!(matches!(m.publish(resp), PublishOutcome::Published { .. }));
    let payload = payload_of(&mut m, idx, &mut session);
    assert!(matches!(payload, ResponsePayload::NotFound));
}

/// Three clients; one message for client A reaches A's main loop only,
/// and the used slot is fully reclaimed afterwards.
#[test]
fn broadcast_fan_out() {
    let mut m = BroadcastModel::new(8);
    let a = m.join();
    let b = m.join();
    let c = m.join();
    let mut sa = ClientSession::new(1, 0);
    let mut sb = ClientSession::new(2, 0);
    let mut sc = ClientSession::new(3, 0);
    assert_eq!(m.tail.rx_cnt, 3);

    let resp = handle_request(&make_request(1, 9, RequestPayload::Insert(key("a"), 1)), TableOutcome::Stored);
    assert!(matches!(m.publish(resp), PublishOutcome::Published { pos: 0 }));
    assert_eq!(m.slots[0].rem, 3);

    let ma = m.receive(a).unwrap();
    let mb = m.receive(b).unwrap();
    let mc = m.receive(c).unwrap();
    assert!(sa.note_received(&ma), "A's message reaches A");
    assert!(!sb.note_received(&mb), "B discards A's message");
    assert!(!sc.note_received(&mc), "C discards A's message");

    // every receiver took its read: the slot is free again
    assert_eq!(m.slots[0].rem, 0);
    assert!(m.slots[0].val.is_none());

    // nothing further is ready for anyone
    assert!(m.receive(a).is_none());
}

/// Two clients; B sends a burst, leaves, and must drain every position
/// below its frozen leave target exactly once.
#[test]
fn leave_drain() {
    let mut m = BroadcastModel::new(256);
    let a = m.join();
    let b = m.join();
    let mut sb = ClientSession::new(2, 0);

    for i in 0..100u32 {
        let resp = handle_request(
            &make_request(2, i, RequestPayload::Insert(key("k"), i)),
            TableOutcome::Stored,
        );
        assert!(matches!(m.publish(resp), PublishOutcome::Published { .. }));
    }

    // B commits its leave at position 100 and still owes 100 reads
    let until = m.try_leave(b).expect("first leave succeeds");
    assert_eq!(until, 100);
    assert!(sb.begin_leave(until).is_ok());
    assert_eq!(m.tail.rx_cnt, 1);

    // a second leave is detected and changes nothing
    assert!(m.try_leave(b).is_none());
    assert!(sb.begin_leave(until).is_err());
    assert_eq!(m.tail.rx_cnt, 1);

    let mut drained = 0u64;
    while !sb.drain_finished() {
        let msg = m.receive(b).expect("every position below the leave target is ready");
        sb.note_received(&msg);
        drained += 1;
    }
    assert_eq!(drained, 100);
    sb.finish_leave();
    m.depart(b);
    assert_eq!(m.clients.len(), 1);

    // B's reads are taken exactly once: each slot now waits on A alone
    for i in 0..100 {
        assert_eq!(m.slots[i].rem, 1);
    }

    // A drains too and every slot is reclaimed: the publisher never
    // stalls on a departed receiver
    for _ in 0..100 {
        assert!(m.receive(a).is_some());
    }
    for i in 0..100 {
        assert_eq!(m.slots[i].rem, 0);
    }
    let resp = handle_request(&make_request(1, 0, RequestPayload::Delete(key("k"))), TableOutcome::Missing);
    assert!(matches!(m.publish(resp), PublishOutcome::Published { pos: 100 }));
}

/// With every client gone a publish drops the message and the ring
/// stays untouched; a fresh client sees only what came after its join.
#[test]
fn drop_on_empty() {
    let mut m = BroadcastModel::new(8);
    let resp = handle_request(&make_request(7, 0, RequestPayload::Insert(key("x"), 1)), TableOutcome::Stored);
    assert!(matches!(m.publish(resp), PublishOutcome::Dropped));
    assert_eq!(m.tail.pos, 0);
    assert_eq!(m.slots[0].rem, 0);

    // a client that joined and left: its publishes also drop
    let idx = m.join();
    let until = m.try_leave(idx).unwrap();
    assert_eq!(until, 0);
    m.depart(idx);
    assert!(matches!(m.publish(resp), PublishOutcome::Dropped));

    // a fresh client receives only messages published after its join
    let idx = m.join();
    assert!(matches!(m.clients[idx].phase, ClientPhase::Joined));
    assert_eq!(m.clients[idx].cursor, 0);
    assert!(m.receive(idx).is_none());
    let resp2 = handle_request(&make_request(7, 1, RequestPayload::Delete(key("x"))), TableOutcome::Missing);
    assert!(matches!(m.publish(resp2), PublishOutcome::Published { pos: 0 }));
    let got = m.receive(idx).unwrap();
    assert_eq!(got.request_id, 1);
}

/// Two clients that drew the same random identity both deliver the same
/// response to their main loops: cross-delivery is tolerated, not
/// prevented.
#[test]
fn client_id_collision() {
    let mut m = BroadcastModel::new(8);
    let a = m.join();
    let b = m.join();
    let mut sa = ClientSession::new(42, 0);
    let mut sb = ClientSession::new(42, 0);

    let resp = handle_request(&make_request(42, 5, RequestPayload::Insert(key("z"), 9)), TableOutcome::Stored);
    assert!(matches!(m.publish(resp), PublishOutcome::Published { .. }));
    let ma = m.receive(a).unwrap();
    let mb = m.receive(b).unwrap();
    assert!(sa.note_received(&ma));
    assert!(sb.note_received(&mb), "a colliding identity observes cross-delivery");
}

/// The publisher's slot reuse: with one slow reader the ring fills and
/// the publish at the owed slot reports busy until the reader catches
/// up.
#[test]
fn publish_backpressure_on_slow_reader() {
    let mut m = BroadcastModel::new(4);
    let idx = m.join();
    let resp = handle_request(&make_request(1, 0, RequestPayload::Insert(key("k"), 0)), TableOutcome::Stored);
    for _ in 0..4 {
        assert!(matches!(m.publish(resp), PublishOutcome::Published { .. }));
    }
    // all four slots still owed by the one reader: position 4 must wait
    assert!(matches!(m.publish(resp), PublishOutcome::Busy));
    // the reader takes one message; exactly one slot frees up
    assert!(m.receive(idx).is_some());
    assert!(matches!(m.publish(resp), PublishOutcome::Published { pos: 4 }));
    assert!(matches!(m.publish(resp), PublishOutcome::Busy));
}
