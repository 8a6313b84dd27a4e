//! Fixed-size request/response record schema.
//!
//! Every record that crosses the shared region is trivially copyable and
//! holds no pointers: a key is a bounded inline byte string, and a bucket
//! answer carries at most [`BUCKET_INLINE_CAP`] entries inline. Buckets
//! larger than that yield [`ResponsePayload::Overflow`].

use vstd::prelude::*;

verus! {

/// Capacity of a key's inline byte buffer.
pub const KEY_CAPACITY: usize = 64;

/// Largest bucket that a `BucketContent` response can carry inline.
pub const BUCKET_INLINE_CAP: usize = 32;

/// A bounded inline byte string; the key type of every request.
#[derive(Clone, Copy, Debug)]
pub struct Key {
    bytes: [u8; 64],
    len: usize,
}

/// The value type stored under a key.
pub type Value = u32;

impl View for Key {
    type V = Seq<u8>;

    closed spec fn view(&self) -> Seq<u8> {
        self.bytes@.take(if self.len <= 64 {
            self.len as int
        } else {
            64
        })
    }
}

impl Key {
    /// The inline buffer never holds more than `KEY_CAPACITY` bytes.
    pub closed spec fn wf(self) -> bool {
        self.len <= KEY_CAPACITY
    }

    /// The empty key.
    pub fn new() -> (r: Key)
        ensures
            r.wf(),
            r@ == Seq::<u8>::empty(),
    {
        let r = Key { bytes: [0u8; 64], len: 0 };
        proof {
            assert(r@ =~= Seq::<u8>::empty());
        }
        r
    }

    /// Number of bytes the key holds.
    pub fn len(&self) -> (r: usize)
        ensures
            r == self@.len(),
    {
        proof {
            assert(self.bytes@.len() == 64);
        }
        if self.len <= 64 {
            self.len
        } else {
            64
        }
    }

    /// Appends one byte.
    pub fn push_byte(&mut self, b: u8)
        requires
            old(self).wf(),
            old(self)@.len() < KEY_CAPACITY,
        ensures
            final(self).wf(),
            final(self)@ == old(self)@.push(b),
    {
        self.bytes[self.len] = b;
        self.len = self.len + 1;
        proof {
            assert(self@ =~= old(self)@.push(b));
        }
    }

    /// Byte at position `i`.
    pub fn byte_at(&self, i: usize) -> (r: u8)
        requires
            self.wf(),
            i < self@.len(),
        ensures
            r == self@[i as int],
    {
        self.bytes[i]
    }

    /// Builds a key from a byte slice; `None` exactly when the slice is
    /// longer than `KEY_CAPACITY`.
    pub fn from_bytes(s: &[u8]) -> (r: Option<Key>)
        ensures
            s@.len() <= KEY_CAPACITY ==> (r matches Some(k) && k.wf() && k@ == s@),
            s@.len() > KEY_CAPACITY ==> r is None,
    {
        if s.len() > KEY_CAPACITY {
            return None;
        }
        let mut k = Key::new();
        let mut i: usize = 0;
        while i < s.len()
            invariant
                i <= s@.len() <= KEY_CAPACITY,
                k.wf(),
                k@ == s@.take(i as int),
            decreases s@.len() - i,
        {
            k.push_byte(s[i]);
            i = i + 1;
            proof {
                assert(k@ =~= s@.take(i as int));
            }
        }
        proof {
            assert(s@.take(s@.len() as int) =~= s@);
        }
        Some(k)
    }
}

impl PartialEq for Key {
    /// Two keys are equal when they hold the same bytes.
    fn eq(&self, other: &Key) -> (r: bool) {
        let sl = if self.len <= 64 {
            self.len
        } else {
            64
        };
        let ol = if other.len <= 64 {
            other.len
        } else {
            64
        };
        if sl != ol {
            proof {
                assert(self@.len() == sl);
                assert(other@.len() == ol);
            }
            return false;
        }
        let mut i: usize = 0;
        while i < sl
            invariant
                sl == ol <= 64,
                self@.len() == sl,
                other@.len() == ol,
                i <= sl,
                forall|j: int| 0 <= j < i ==> self@[j] == other@[j],
            decreases sl - i,
        {
            if self.bytes[i] != other.bytes[i] {
                assert(self@[i as int] != other@[i as int]);
                return false;
            }
            i = i + 1;
        }
        proof {
            assert(self@ =~= other@);
        }
        true
    }
}

impl vstd::std_specs::cmp::PartialEqSpecImpl for Key {
    open spec fn obeys_eq_spec() -> bool {
        true
    }

    open spec fn eq_spec(&self, other: &Key) -> bool {
        self@ == other@
    }
}

/// What a client asks a worker to do.
#[derive(Clone, Copy, Debug)]
pub enum RequestPayload {
    /// Store a value under a key.
    Insert(Key, Value),
    /// Report the whole bucket the key hashes into.
    ReadBucket(Key),
    /// Remove a key.
    Delete(Key),
}

/// One request record, stamped with the sender's identity.
#[derive(Clone, Copy, Debug)]
pub struct RequestData {
    /// Random identity the sending client chose at attach.
    pub client_id: u32,
    /// Correlates the response with the sender's outstanding request.
    pub request_id: u32,
    /// The operation to perform.
    pub payload: RequestPayload,
}

/// What a worker answers.
#[derive(Clone, Copy, Debug)]
pub enum ResponsePayload {
    /// The insert was performed.
    Inserted,
    /// The bucket's entries, at most `BUCKET_INLINE_CAP` of them inline.
    BucketContent { len: usize, data: [(Key, Value); 32] },
    /// The key existed and was removed.
    Deleted,
    /// The key did not exist.
    NotFound,
    /// The bucket exceeded `BUCKET_INLINE_CAP` entries.
    Overflow,
}

impl ResponsePayload {
    /// In a bucket answer the entry count fits the inline array.
    pub open spec fn wf(self) -> bool {
        self matches ResponsePayload::BucketContent { len, data } ==> len <= BUCKET_INLINE_CAP
    }

    /// The entries a bucket answer carries.
    pub open spec fn bucket_entries(self) -> Seq<(Key, Value)>
        recommends
            self is BucketContent,
    {
        self->BucketContent_data@.take(self->BucketContent_len as int)
    }
}

/// One response record; `client_id` and `request_id` echo the request.
#[derive(Clone, Copy, Debug)]
pub struct ResponseData {
    /// Identity of the client the response is addressed to.
    pub client_id: u32,
    /// The request this response answers.
    pub request_id: u32,
    /// The answer.
    pub payload: ResponsePayload,
}

/// One entry of a hash-table bucket, as the table (an external
/// collaborator) hands entries back to the worker.
#[derive(Clone, Copy, Debug, PartialEq)]
pub struct Node<K, V> {
    /// The entry's key.
    pub k: K,
    /// The entry's value.
    pub v: V,
}

/// What the hash table (an external collaborator) reported back to the
/// worker for one request.
pub enum TableOutcome {
    /// The insert was applied.
    Stored,
    /// The entries of the bucket the key hashes into.
    Bucket(Vec<(Key, Value)>),
    /// A delete found and removed the key.
    Removed,
    /// A delete found nothing under the key.
    Missing,
}

/// Whether a table outcome is one the given request can produce.
pub open spec fn outcome_fits(payload: RequestPayload, outcome: TableOutcome) -> bool {
    match payload {
        RequestPayload::Insert(_, _) => outcome is Stored,
        RequestPayload::ReadBucket(_) => outcome is Bucket,
        RequestPayload::Delete(_) => outcome is Removed || outcome is Missing,
    }
}

/// Whether `p` is the answer a worker owes for a table outcome: the
/// outcome's own kind echoed back, and for a bucket its exact entries
/// when they fit inline, `Overflow` otherwise.
pub open spec fn payload_answers(outcome: TableOutcome, p: ResponsePayload) -> bool {
    match outcome {
        TableOutcome::Stored => p is Inserted,
        TableOutcome::Bucket(items) => if items@.len() <= BUCKET_INLINE_CAP {
            &&& p is BucketContent
            &&& p->BucketContent_len == items@.len()
            &&& p.bucket_entries() == items@
        } else {
            p is Overflow
        },
        TableOutcome::Removed => p is Deleted,
        TableOutcome::Missing => p is NotFound,
    }
}

/// Stamps a payload into a request record.
pub fn make_request(client_id: u32, request_id: u32, payload: RequestPayload) -> (r: RequestData)
    ensures
        r.client_id == client_id,
        r.request_id == request_id,
        r.payload == payload,
{
    RequestData { client_id, request_id, payload }
}

/// Builds the bucket answer for the entries a `ReadBucket` found: their
/// exact sequence when they fit inline, `Overflow` otherwise.
pub fn bucket_response(items: &Vec<(Key, Value)>) -> (r: ResponsePayload)
    ensures
        r.wf(),
        items@.len() <= BUCKET_INLINE_CAP ==> (r matches ResponsePayload::BucketContent {
            len,
            data,
        } && len == items@.len() && data@.take(len as int) == items@),
        items@.len() > BUCKET_INLINE_CAP ==> r is Overflow,
{
    let n = items.len();
    if n > BUCKET_INLINE_CAP {
        return ResponsePayload::Overflow;
    }
    let mut data: [(Key, Value); 32] = [(Key::new(), 0); 32];
    let mut i: usize = 0;
    while i < n
        invariant
            n == items@.len() <= BUCKET_INLINE_CAP,
            i <= n,
            data@.len() == 32,
            forall|j: int| 0 <= j < i ==> data@[j] == items@[j],
        decreases n - i,
    {
        data[i] = items[i];
        i = i + 1;
    }
    proof {
        assert(data@.take(n as int) =~= items@);
    }
    ResponsePayload::BucketContent { len: n, data }
}

/// Builds the response a worker owes for a request, given what the hash
/// table reported: the request's identity stamps echoed, the payload
/// answering the outcome.
pub fn handle_request(request: &RequestData, outcome: TableOutcome) -> (r: ResponseData)
    requires
        outcome_fits(request.payload, outcome),
    ensures
        r.client_id == request.client_id,
        r.request_id == request.request_id,
        r.payload.wf(),
        payload_answers(outcome, r.payload),
{
    let payload = match outcome {
        TableOutcome::Stored => ResponsePayload::Inserted,
        TableOutcome::Bucket(items) => bucket_response(&items),
        TableOutcome::Removed => ResponsePayload::Deleted,
        TableOutcome::Missing => ResponsePayload::NotFound,
    };
    ResponseData { client_id: request.client_id, request_id: request.request_id, payload }
}

} // verus!
