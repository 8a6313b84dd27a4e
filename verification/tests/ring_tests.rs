//! Tests of the bounded request ring.

use hashtable_ipc::records::{make_request, Key, RequestPayload};
use hashtable_ipc::request_ring::RequestQueue;
use hashtable_ipc::REQ_BUFFER_SIZE;

fn insert_request(id: u32) -> hashtable_ipc::records::RequestData {
    make_request(1, id, RequestPayload::Insert(Key::new(), id))
}

/// Requests come out in the order they went in.
#[test]
fn fifo_order() {
    let mut q = RequestQueue::new();
    assert_eq!(q.len(), 0);
    for id in 0..5u32 {
        assert!(q.try_enqueue(insert_request(id)));
    }
    assert_eq!(q.len(), 5);
    for id in 0..5u32 {
        let item = q.try_dequeue().unwrap();
        assert_eq!(item.request_id, id);
    }
    assert_eq!(q.len(), 0);
    assert!(q.try_dequeue().is_none());
}

/// A producer that sends `REQ_BUFFER_SIZE + 10` requests without the
/// consumer reading fills the ring after exactly `REQ_BUFFER_SIZE`
/// commits; the rest must wait for drains, and nothing is lost.
#[test]
fn back_pressure_full_ring() {
    let mut q = RequestQueue::new();
    let total = (REQ_BUFFER_SIZE + 10) as u32;
    let mut sent: u32 = 0;
    // the first REQ_BUFFER_SIZE commits succeed straight away
    while sent < REQ_BUFFER_SIZE as u32 {
        assert!(q.try_enqueue(insert_request(sent)));
        sent += 1;
    }
    // the ring is full: occupancy sits at the capacity and the next
    // commit is refused until a drain frees a slot
    assert_eq!(q.len(), REQ_BUFFER_SIZE);
    assert!(!q.try_enqueue(insert_request(sent)));

    let mut received: u32 = 0;
    while received < total {
        let item = q.try_dequeue().unwrap();
        assert_eq!(item.request_id, received);
        received += 1;
        if sent < total {
            assert!(q.try_enqueue(insert_request(sent)));
            sent += 1;
        }
    }
    assert_eq!(sent, total);
    assert_eq!(received, total);
    assert_eq!(q.len(), 0);
}

/// Occupancy tracks commits and drains one by one and never exceeds the
/// capacity.
#[test]
fn occupancy_bounds() {
    let mut q = RequestQueue::new();
    for round in 0..3 {
        for i in 0..10u32 {
            assert!(q.try_enqueue(insert_request(round * 10 + i)));
            assert!(q.len() <= REQ_BUFFER_SIZE);
        }
        for _ in 0..10 {
            assert!(q.try_dequeue().is_some());
        }
        assert_eq!(q.len(), 0);
    }
}
