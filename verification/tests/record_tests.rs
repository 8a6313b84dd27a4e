//! Tests of the record schema, the workload decisions, the readiness
//! gate, and the status checking.

use hashtable_ipc::bucket::{bucket_find, bucket_insert, bucket_remove};
use hashtable_ipc::records::{
    bucket_response, handle_request, make_request, Key, Node, RequestPayload, ResponsePayload,
    TableOutcome, KEY_CAPACITY,
};
use hashtable_ipc::session::ClientSession;
use hashtable_ipc::shm::{check_ready, HeapArrayInit, SharedMemoryContents};
use hashtable_ipc::status::CheckOk;
use hashtable_ipc::workload::{count_duplicates, delete_outcome, expect_inserted, key_name};
use hashtable_ipc::MAGIC_VALUE;

fn key(s: &str) -> Key {
    Key::from_bytes(s.as_bytes()).unwrap()
}

#[test]
fn key_bytes_round_trip() {
    let k = key("hello");
    assert_eq!(k.len(), 5);
    assert_eq!(k.byte_at(0), b'h');
    assert_eq!(k.byte_at(4), b'o');
    assert!(k == key("hello"));
    assert!(!(k == key("hellp")));
    assert!(!(k == key("hell")));
    assert_eq!(Key::new().len(), 0);
}

#[test]
fn key_capacity_is_enforced() {
    let long = [b'x'; 65];
    assert!(Key::from_bytes(&long).is_none());
    let exact = [b'x'; 64];
    let k = Key::from_bytes(&exact).unwrap();
    assert_eq!(k.len(), KEY_CAPACITY);
}

#[test]
fn key_name_spells_seed_and_suffix() {
    let k = key_name(5, 7);
    assert_eq!(k.len(), 4);
    assert!(k == key("ht57"));
    let k = key_name(1234567890, 0);
    assert!(k == key("ht12345678900"));
    let k = key_name(u32::MAX, u32::MAX);
    assert!(k == key("ht42949672954294967295"));
}

#[test]
fn bucket_response_inlines_small_buckets() {
    let items = vec![(key("a"), 1u32), (key("b"), 2u32)];
    match bucket_response(&items) {
        ResponsePayload::BucketContent { len, data } => {
            assert_eq!(len, 2);
            assert!(data[0].0 == key("a"));
            assert_eq!(data[0].1, 1);
            assert!(data[1].0 == key("b"));
            assert_eq!(data[1].1, 2);
        },
        _ => panic!("small bucket must be inlined"),
    }
}

#[test]
fn bucket_response_overflows_past_inline_cap() {
    let mut items = Vec::new();
    for i in 0..33u32 {
        items.push((key_name(0, i), i));
    }
    assert!(matches!(bucket_response(&items), ResponsePayload::Overflow));
    items.truncate(32);
    assert!(matches!(bucket_response(&items), ResponsePayload::BucketContent { len: 32, .. }));
}

#[test]
fn responses_echo_request_identity() {
    let req = make_request(0xAABB_CCDD, 17, RequestPayload::Delete(key("gone")));
    assert_eq!(req.client_id, 0xAABB_CCDD);
    assert_eq!(req.request_id, 17);
    let resp = handle_request(&req, TableOutcome::Missing);
    assert_eq!(resp.client_id, 0xAABB_CCDD);
    assert_eq!(resp.request_id, 17);
    assert!(matches!(resp.payload, ResponsePayload::NotFound));
    let resp = handle_request(&req, TableOutcome::Removed);
    assert!(matches!(resp.payload, ResponsePayload::Deleted));
}

#[test]
fn count_duplicates_counts_repeats() {
    let keys = vec![key("a"), key("b"), key("a"), key("a"), key("c")];
    assert_eq!(count_duplicates(&keys), 2);
    let keys = vec![key("a"), key("b"), key("c")];
    assert_eq!(count_duplicates(&keys), 0);
    let keys: Vec<Key> = Vec::new();
    assert_eq!(count_duplicates(&keys), 0);
}

#[test]
fn delete_phase_accounts_duplicates() {
    assert_eq!(delete_outcome(3, &ResponsePayload::Deleted).unwrap(), 3);
    assert_eq!(delete_outcome(3, &ResponsePayload::NotFound).unwrap(), 2);
    assert!(delete_outcome(0, &ResponsePayload::NotFound).is_err());
    assert!(delete_outcome(3, &ResponsePayload::Inserted).is_err());
    assert!(expect_inserted(&ResponsePayload::Inserted).is_ok());
    assert!(expect_inserted(&ResponsePayload::Deleted).is_err());
}

#[test]
fn session_filters_by_client_id() {
    let mut s = ClientSession::new(10, 0);
    let mine = handle_request(&make_request(10, 1, RequestPayload::Insert(key("k"), 1)), TableOutcome::Stored);
    let other = handle_request(&make_request(11, 1, RequestPayload::Insert(key("k"), 1)), TableOutcome::Stored);
    assert!(s.note_received(&mine));
    assert!(!s.note_received(&other));
    assert_eq!(s.read_next, 2);
}

#[test]
fn readiness_gate() {
    assert!(check_ready(MAGIC_VALUE).is_ok());
    assert!(check_ready(0).is_err());
    assert!(check_ready(MAGIC_VALUE.wrapping_add(1)).is_err());
    let region = SharedMemoryContents::new(99u32);
    assert!(region.is_ready());
    assert_eq!(*region.get(), 99);
    assert!(check_ready(region.magic).is_ok());
}

#[test]
fn status_codes_check() {
    assert!(0i32.r("sem_init").is_ok());
    let e = 11i32.r("sem_wait").unwrap_err();
    assert_eq!(e.code, 11);
    assert_eq!(e.op, "sem_wait");
    let ok: Result<u32, i32> = Ok(5);
    assert_eq!(ok.r("mmap").unwrap(), 5);
    let bad: Result<u32, i32> = Err(22);
    let e = bad.r("mmap").unwrap_err();
    assert_eq!(e.code, 22);
    assert_eq!(e.op, "mmap");
}

#[test]
fn bucket_insert_read_delete_identity() {
    let mut bucket: Vec<Node<Key, u32>> = Vec::new();
    bucket_insert(&mut bucket, key("foo"), 7);
    assert_eq!(bucket_find(&bucket, &key("foo")), Some(7));
    bucket_insert(&mut bucket, key("bar"), 8);
    assert_eq!(bucket.len(), 2);

    // a repeated insert overwrites in place
    bucket_insert(&mut bucket, key("foo"), 9);
    assert_eq!(bucket.len(), 2);
    assert_eq!(bucket_find(&bucket, &key("foo")), Some(9));

    // after a delete the key is gone; a second delete finds nothing
    assert_eq!(bucket_remove(&mut bucket, &key("foo")), Some(9));
    assert_eq!(bucket_find(&bucket, &key("foo")), None);
    assert_eq!(bucket_remove(&mut bucket, &key("foo")), None);
    assert_eq!(bucket_find(&bucket, &key("bar")), Some(8));
}

#[test]
fn cli_defaults() {
    let c = hashtable_ipc::client_cli::Args::default();
    assert_eq!(c.outer_iterations, 1000);
    assert_eq!(c.inner_iterations, 100);
    assert!(c.seed.is_none());
    let s = hashtable_ipc::server_cli::Args::new(1024);
    assert_eq!(s.size, 1024);
    assert_eq!(s.num_threads, 4);
    assert!(s.validate());
    assert!(!hashtable_ipc::server_cli::Args { size: 0, num_threads: 4 }.validate());
    assert!(!hashtable_ipc::server_cli::Args { size: 8, num_threads: 0 }.validate());
}

#[test]
fn heap_array_builds_by_index() {
    let arr: HeapArrayInit<u32, 16> = HeapArrayInit::from_fn(|i| (i as u32) * 2);
    let v = arr.into_vec();
    assert_eq!(v.len(), 16);
    for i in 0..16 {
        assert_eq!(v[i], (i as u32) * 2);
    }
}
