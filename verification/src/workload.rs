//! The client workload's decisions.
//!
//! The benchmark drives passes of insert, read-back and delete over
//! randomly named keys. The randomness, the channels and the pacing are
//! unverified plumbing in the client binary; this module verifies what
//! the pass decides: how a key name is spelled from the seed and the
//! random suffix, how many duplicate names a pass produced (a duplicate
//! insert overwrites, so its later delete is allowed to find nothing),
//! and which response payload each phase accepts.

use vstd::prelude::*;

use crate::records::{Key, ResponsePayload};

verus! {

/// The decimal spelling of `n`, most significant digit first, as ASCII
/// bytes.
pub open spec fn decimal_digits(n: nat) -> Seq<u8>
    decreases n,
{
    if n < 10 {
        seq![(48 + n) as u8]
    } else {
        decimal_digits(n / 10).push((48 + n % 10) as u8)
    }
}

/// Powers of ten.
pub open spec fn pow10(d: nat) -> nat
    decreases d,
{
    if d == 0 {
        1
    } else {
        10 * pow10((d - 1) as nat)
    }
}

/// A number below the `d`-th power of ten spells with at most `d`
/// digits.
proof fn lemma_decimal_len(n: nat, d: nat)
    requires
        1 <= d,
        n < pow10(d),
    ensures
        decimal_digits(n).len() <= d,
    decreases d,
{
    if n < 10 {
    } else {
        assert(d >= 2) by {
            if d == 1 {
                assert(pow10(1) == 10) by {
                    reveal_with_fuel(pow10, 2);
                }
            }
        }
        assert(n / 10 < pow10((d - 1) as nat)) by (nonlinear_arith)
            requires
                n < pow10(d),
                pow10(d) == 10 * pow10((d - 1) as nat),
                n >= 10,
        ;
        lemma_decimal_len(n / 10, (d - 1) as nat);
    }
}

/// Appends the decimal spelling of `n` to a key.
fn push_decimal(k: &mut Key, n: u32)
    requires
        old(k).wf(),
        old(k)@.len() + decimal_digits(n as nat).len() <= crate::records::KEY_CAPACITY,
    ensures
        final(k).wf(),
        final(k)@ == old(k)@ + decimal_digits(n as nat),
    decreases n,
{
    if n < 10 {
        k.push_byte(48 + (n as u8));
        proof {
            assert(k@ =~= old(k)@ + decimal_digits(n as nat));
        }
    } else {
        push_decimal(k, n / 10);
        k.push_byte(48 + ((n % 10) as u8));
        proof {
            assert(k@ =~= old(k)@ + decimal_digits(n as nat));
        }
    }
}

/// The name a pass gives to one key: `ht`, the seed's decimal spelling,
/// then the random suffix's.
pub open spec fn key_name_spelling(seed: u32, suffix: u32) -> Seq<u8> {
    seq![104u8, 116u8] + decimal_digits(seed as nat) + decimal_digits(suffix as nat)
}

/// Spells the key a pass inserts for a seed and a random suffix. The
/// two letters and at most ten digits of each number always fit a key.
pub fn key_name(seed: u32, suffix: u32) -> (k: Key)
    ensures
        k.wf(),
        k@ == key_name_spelling(seed, suffix),
{
    proof {
        assert(pow10(10) == 10000000000) by {
            reveal_with_fuel(pow10, 11);
        }
        lemma_decimal_len(seed as nat, 10);
        lemma_decimal_len(suffix as nat, 10);
    }
    let mut k = Key::new();
    k.push_byte(104);
    k.push_byte(116);
    proof {
        assert(k@ =~= seq![104u8, 116u8]);
    }
    push_decimal(&mut k, seed);
    push_decimal(&mut k, suffix);
    proof {
        assert(k@ =~= key_name_spelling(seed, suffix));
    }
    k
}

/// How many entries of `names` repeat an earlier entry.
pub open spec fn dup_count(names: Seq<Seq<u8>>) -> nat
    decreases names.len(),
{
    if names.len() == 0 {
        0
    } else {
        dup_count(names.drop_last()) + if names.drop_last().contains(names.last()) {
            1nat
        } else {
            0nat
        }
    }
}

/// The key views of a batch.
pub open spec fn name_views(keys: Seq<Key>) -> Seq<Seq<u8>> {
    keys.map_values(|k: Key| k@)
}

/// Counts the keys of a batch that repeat an earlier key. A duplicate
/// insert overwrites its first occurrence, so exactly this many deletes
/// of the batch are allowed to find nothing.
pub fn count_duplicates(keys: &Vec<Key>) -> (r: usize)
    ensures
        r == dup_count(name_views(keys@)),
{
    let n = keys.len();
    let mut count: usize = 0;
    let mut i: usize = 0;
    while i < n
        invariant
            i <= n == keys@.len(),
            count == dup_count(name_views(keys@.take(i as int))),
            count <= i,
        decreases n - i,
    {
        let mut seen_before = false;
        let mut j: usize = 0;
        while j < i
            invariant
                j <= i < keys@.len(),
                seen_before == exists|j2: int| 0 <= j2 < j && keys@[j2]@ == keys@[i as int]@,
            decreases i - j,
        {
            if keys[j] == keys[i] {
                seen_before = true;
            }
            j = j + 1;
        }
        proof {
            let views = name_views(keys@.take(i as int + 1));
            assert(views.drop_last() =~= name_views(keys@.take(i as int)));
            assert(views.last() == keys@[i as int]@);
            assert(seen_before == views.drop_last().contains(views.last())) by {
                if seen_before {
                    let j2 = choose|j2: int| 0 <= j2 < i && keys@[j2]@ == keys@[i as int]@;
                    assert(views.drop_last()[j2] == keys@[j2]@);
                } else {
                    if views.drop_last().contains(views.last()) {
                        let j2 = choose|j2: int|
                            0 <= j2 < i && views.drop_last()[j2] == views.last();
                        assert(keys@[j2]@ == keys@[i as int]@);
                    }
                }
            }
        }
        if seen_before {
            count = count + 1;
        }
        i = i + 1;
    }
    proof {
        assert(keys@.take(n as int) =~= keys@);
    }
    count
}

/// A response payload the benchmark did not expect for the outstanding
/// request: fatal in the harness.
#[derive(Clone, Copy, Debug, PartialEq, Eq, Structural)]
pub struct DecodeMismatch;

/// The insert phase accepts exactly an `Inserted` answer.
pub fn expect_inserted(payload: &ResponsePayload) -> (r: Result<(), DecodeMismatch>)
    ensures
        payload is Inserted <==> r is Ok,
{
    match payload {
        ResponsePayload::Inserted => Ok(()),
        _ => Err(DecodeMismatch),
    }
}

/// Whether a bucket answer carries the pair `(key, value)`. The read
/// phase requires this of the bucket the inserted key hashed into; any
/// other payload kind fails it.
pub fn bucket_contains(payload: &ResponsePayload, key: &Key, value: u32) -> (r: bool)
    requires
        payload.wf(),
    ensures
        r == (payload is BucketContent && exists|j: int|
            0 <= j < payload.bucket_entries().len() && payload.bucket_entries()[j].0@ == key@
                && payload.bucket_entries()[j].1 == value),
{
    match payload {
        ResponsePayload::BucketContent { len, data } => {
            let n = *len;
            let mut j: usize = 0;
            while j < n
                invariant
                    j <= n <= 32,
                    n == payload->BucketContent_len,
                    data == payload->BucketContent_data,
                    payload is BucketContent,
                    forall|j2: int|
                        0 <= j2 < j ==> !(payload.bucket_entries()[j2].0@ == key@
                            && payload.bucket_entries()[j2].1 == value),
                decreases n - j,
            {
                let (k, v) = data[j];
                if k == *key && v == value {
                    proof {
                        assert(payload.bucket_entries()[j as int].0@ == key@);
                    }
                    return true;
                }
                j = j + 1;
            }
            false
        },
        _ => false,
    }
}

/// The delete phase accepts `Deleted`, or `NotFound` while the pass
/// still has unaccounted duplicates — a duplicate insert overwrote its
/// first occurrence, so one delete of the pair finds nothing. A
/// `NotFound` beyond that count, or any other payload, is a mismatch.
pub fn delete_outcome(duplicates_left: u64, payload: &ResponsePayload) -> (r: Result<
    u64,
    DecodeMismatch,
>)
    ensures
        payload is Deleted ==> (r matches Ok(d) && d == duplicates_left),
        payload is NotFound && duplicates_left > 0 ==> (r matches Ok(d) && d == duplicates_left
            - 1),
        payload is NotFound && duplicates_left == 0 ==> r is Err,
        !(payload is Deleted || payload is NotFound) ==> r is Err,
{
    match payload {
        ResponsePayload::Deleted => Ok(duplicates_left),
        ResponsePayload::NotFound => {
            if duplicates_left > 0 {
                Ok(duplicates_left - 1)
            } else {
                Err(DecodeMismatch)
            }
        },
        _ => Err(DecodeMismatch),
    }
}

} // verus!
