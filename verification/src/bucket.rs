//! One hash-table bucket's operations.
//!
//! The table itself — which bucket a key hashes into, and the per-bucket
//! locks — is an external collaborator of the core: its hasher is
//! seeded per process, and its locks block in the kernel. What each
//! bucket does under its lock is plain list logic, verified here: an
//! insert overwrites the key's entry or prepends a new one, a lookup
//! finds the key's entry, a delete removes it.

use vstd::prelude::*;

use crate::records::{Key, Node, Value};

verus! {

/// The index of the first entry holding `key`, or minus one.
pub open spec fn find_index(bucket: Seq<Node<Key, Value>>, key: Seq<u8>) -> int
    decreases bucket.len(),
{
    if bucket.len() == 0 {
        -1
    } else if bucket[0].k@ == key {
        0
    } else {
        let rest = find_index(bucket.skip(1), key);
        if rest < 0 {
            -1
        } else {
            rest + 1
        }
    }
}

/// What `find_index` finds: the first match, or nothing anywhere.
pub proof fn lemma_find_index(bucket: Seq<Node<Key, Value>>, key: Seq<u8>)
    ensures
        find_index(bucket, key) == -1 ==> forall|i: int|
            0 <= i < bucket.len() ==> (#[trigger] bucket[i]).k@ != key,
        find_index(bucket, key) != -1 ==> {
            let r = find_index(bucket, key);
            &&& 0 <= r < bucket.len()
            &&& bucket[r].k@ == key
            &&& forall|i: int| 0 <= i < r ==> (#[trigger] bucket[i]).k@ != key
        },
    decreases bucket.len(),
{
    if bucket.len() > 0 && bucket[0].k@ != key {
        let rest = bucket.skip(1);
        lemma_find_index(rest, key);
        assert(forall|i: int| 0 <= i < rest.len() ==> #[trigger] rest[i] == bucket[i + 1]);
        let r = find_index(rest, key);
        if r == -1 {
            assert forall|i: int| 0 <= i < bucket.len() implies (#[trigger] bucket[i]).k@
                != key by {
                if i > 0 {
                    assert(rest[i - 1].k@ != key);
                }
            }
        } else {
            assert forall|i: int| 0 <= i < r + 1 implies (#[trigger] bucket[i]).k@ != key by {
                if i > 0 {
                    assert(rest[i - 1].k@ != key);
                }
            }
        }
    }
}

/// The value stored under the key, if any.
pub open spec fn bucket_lookup(bucket: Seq<Node<Key, Value>>, key: Seq<u8>) -> Option<Value> {
    let r = find_index(bucket, key);
    if r == -1 {
        None
    } else {
        Some(bucket[r].v)
    }
}

/// The bucket after an insert: the key's first entry overwritten, or a
/// new entry prepended.
pub open spec fn spec_bucket_insert(
    bucket: Seq<Node<Key, Value>>,
    key: Key,
    val: Value,
) -> Seq<Node<Key, Value>> {
    let r = find_index(bucket, key@);
    if r == -1 {
        seq![Node { k: key, v: val }] + bucket
    } else {
        bucket.update(r, Node { k: bucket[r].k, v: val })
    }
}

/// The bucket after a delete: the key's first entry removed.
pub open spec fn spec_bucket_remove(bucket: Seq<Node<Key, Value>>, key: Seq<u8>) -> Seq<
    Node<Key, Value>,
> {
    let r = find_index(bucket, key);
    if r == -1 {
        bucket
    } else {
        bucket.remove(r)
    }
}

/// No two entries of the bucket hold the same key; inserts and deletes
/// keep it that way.
pub open spec fn bucket_keys_unique(bucket: Seq<Node<Key, Value>>) -> bool {
    forall|i: int, j: int|
        0 <= i < j < bucket.len() ==> (#[trigger] bucket[i]).k@ != (#[trigger] bucket[j]).k@
}

/// The index of the first entry holding `key`, found by a scan.
fn find_entry(bucket: &Vec<Node<Key, Value>>, key: &Key) -> (r: Option<usize>)
    ensures
        r matches Some(i) ==> i < bucket@.len() && i == find_index(bucket@, key@),
        r is None ==> find_index(bucket@, key@) == -1,
{
    let n = bucket.len();
    let mut i: usize = 0;
    while i < n
        invariant
            i <= n == bucket@.len(),
            forall|j: int| 0 <= j < i ==> (#[trigger] bucket@[j]).k@ != key@,
        decreases n - i,
    {
        if bucket[i].k == *key {
            proof {
                lemma_find_index(bucket@, key@);
            }
            return Some(i);
        }
        i = i + 1;
    }
    proof {
        lemma_find_index(bucket@, key@);
    }
    None
}

/// Stores `val` under `key`: the key's entry is overwritten if one
/// exists, otherwise a new entry is prepended. Exactly what the table's
/// insert does to the bucket the key hashes into, under that bucket's
/// write lock.
pub fn bucket_insert(bucket: &mut Vec<Node<Key, Value>>, key: Key, val: Value)
    requires
        old(bucket)@.len() < usize::MAX,
    ensures
        final(bucket)@ == spec_bucket_insert(old(bucket)@, key, val),
{
    match find_entry(bucket, &key) {
        Some(i) => {
            let kept = bucket[i].k;
            bucket.set(i, Node { k: kept, v: val });
        },
        None => {
            bucket.insert(0, Node { k: key, v: val });
            proof {
                assert(bucket@ =~= seq![Node { k: key, v: val }] + old(bucket)@);
            }
        },
    }
}

/// The value stored under `key`, if any. Exactly what the table's get
/// reads from the bucket the key hashes into, under its read lock.
pub fn bucket_find(bucket: &Vec<Node<Key, Value>>, key: &Key) -> (r: Option<Value>)
    ensures
        r == bucket_lookup(bucket@, key@),
{
    match find_entry(bucket, key) {
        Some(i) => {
            proof {
                lemma_find_index(bucket@, key@);
            }
            Some(bucket[i].v)
        },
        None => None,
    }
}

/// Removes the key's entry and hands its value back, if one exists.
/// Exactly what the table's remove does to the bucket the key hashes
/// into, under its write lock.
pub fn bucket_remove(bucket: &mut Vec<Node<Key, Value>>, key: &Key) -> (r: Option<Value>)
    ensures
        final(bucket)@ == spec_bucket_remove(old(bucket)@, key@),
        r == bucket_lookup(old(bucket)@, key@),
{
    match find_entry(bucket, key) {
        Some(i) => {
            proof {
                lemma_find_index(bucket@, key@);
            }
            let node = bucket.remove(i);
            Some(node.v)
        },
        None => None,
    }
}

/// An insert puts the pair where a read finds it, and uniqueness of
/// keys survives.
pub proof fn lemma_insert_then_lookup(bucket: Seq<Node<Key, Value>>, key: Key, val: Value)
    requires
        bucket_keys_unique(bucket),
    ensures
        bucket_lookup(spec_bucket_insert(bucket, key, val), key@) == Some(val),
        bucket_keys_unique(spec_bucket_insert(bucket, key, val)),
{
    let b2 = spec_bucket_insert(bucket, key, val);
    let r = find_index(bucket, key@);
    lemma_find_index(bucket, key@);
    if r == -1 {
        assert(b2[0].k@ == key@);
        assert(find_index(b2, key@) == 0);
        assert(forall|i: int| 0 <= i < bucket.len() ==> #[trigger] b2[i + 1] == bucket[i]);
        assert forall|i: int, j: int| 0 <= i < j < b2.len() implies (#[trigger] b2[i]).k@ != (
        #[trigger] b2[j]).k@ by {
            if i == 0 {
                assert(b2[j] == bucket[j - 1]);
            } else {
                assert(b2[i] == bucket[i - 1] && b2[j] == bucket[j - 1]);
            }
        }
    } else {
        lemma_find_index_update_value(bucket, key@, r, val);
        assert(b2[find_index(b2, key@)].v == val);
        assert forall|i: int, j: int| 0 <= i < j < b2.len() implies (#[trigger] b2[i]).k@ != (
        #[trigger] b2[j]).k@ by {
            assert(b2[i].k@ == bucket[i].k@ && b2[j].k@ == bucket[j].k@);
        }
    }
}

/// Overwriting the value at the first match leaves the first match
/// where it was.
proof fn lemma_find_index_update_value(
    bucket: Seq<Node<Key, Value>>,
    key: Seq<u8>,
    r: int,
    val: Value,
)
    requires
        r == find_index(bucket, key),
        0 <= r < bucket.len(),
    ensures
        find_index(bucket.update(r, Node { k: bucket[r].k, v: val }), key) == r,
    decreases bucket.len(),
{
    let b2 = bucket.update(r, Node { k: bucket[r].k, v: val });
    if r == 0 {
        assert(b2[0].k@ == bucket[0].k@);
        lemma_find_index(bucket, key);
        assert(b2[0].k@ == key);
    } else {
        assert(bucket[0].k@ != key);
        assert(b2[0].k@ != key);
        assert(b2.skip(1) =~= bucket.skip(1).update(r - 1, Node { k: bucket[r].k, v: val }));
        assert(bucket.skip(1)[r - 1] == bucket[r]);
        assert(find_index(bucket.skip(1), key) == r - 1) by {
            assert(find_index(bucket, key) == r);
        }
        lemma_find_index_update_value(bucket.skip(1), key, r - 1, val);
    }
}

/// A delete of a unique key leaves a bucket in which a read no longer
/// finds it.
pub proof fn lemma_remove_then_lookup(bucket: Seq<Node<Key, Value>>, key: Seq<u8>)
    requires
        bucket_keys_unique(bucket),
    ensures
        bucket_lookup(spec_bucket_remove(bucket, key), key) is None,
        bucket_keys_unique(spec_bucket_remove(bucket, key)),
{
    let r = find_index(bucket, key);
    lemma_find_index(bucket, key);
    if r != -1 {
        let b2 = bucket.remove(r);
        assert forall|i: int| 0 <= i < b2.len() implies (#[trigger] b2[i]).k@ != key by {
            if i < r {
                assert(b2[i] == bucket[i]);
                assert(bucket[i].k@ != key);
            } else {
                assert(b2[i] == bucket[i + 1]);
                // a second entry with the key would break uniqueness
                assert(bucket[r].k@ == key);
                assert(bucket[i + 1].k@ != bucket[r].k@);
            }
        }
        lemma_no_match_no_index(b2, key);
        assert forall|i: int, j: int| 0 <= i < j < b2.len() implies (#[trigger] b2[i]).k@ != (
        #[trigger] b2[j]).k@ by {
            let i2 = if i < r {
                i
            } else {
                i + 1
            };
            let j2 = if j < r {
                j
            } else {
                j + 1
            };
            assert(b2[i] == bucket[i2] && b2[j] == bucket[j2]);
        }
    }
}

/// A bucket with no matching entry has no match index.
proof fn lemma_no_match_no_index(bucket: Seq<Node<Key, Value>>, key: Seq<u8>)
    requires
        forall|i: int| 0 <= i < bucket.len() ==> (#[trigger] bucket[i]).k@ != key,
    ensures
        find_index(bucket, key) == -1,
{
    lemma_find_index(bucket, key);
    if find_index(bucket, key) != -1 {
        assert(bucket[find_index(bucket, key)].k@ == key);
    }
}

/// Insert, read, delete, read: the inserted pair is found, and after
/// the delete the key is gone — on any bucket whose keys are unique.
pub proof fn lemma_insert_read_delete_identity(
    bucket: Seq<Node<Key, Value>>,
    key: Key,
    val: Value,
)
    requires
        bucket_keys_unique(bucket),
    ensures
        bucket_lookup(spec_bucket_insert(bucket, key, val), key@) == Some(val),
        bucket_lookup(
            spec_bucket_remove(spec_bucket_insert(bucket, key, val), key@),
            key@,
        ) is None,
{
    lemma_insert_then_lookup(bucket, key, val);
    lemma_remove_then_lookup(spec_bucket_insert(bucket, key, val), key@);
}

} // verus!
