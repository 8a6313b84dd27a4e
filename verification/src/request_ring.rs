//! Bounded MPSC request ring: many client producers, worker consumers.
//!
//! The ring state lives in the shared region under one mutex; the two
//! kernel semaphores (`count` for committed items, `space` for free
//! slots) gate entry and are unverified plumbing. This module verifies
//! the state the mutex guards: slot indexing by wrapping positions, the
//! occupancy bound, and first-in first-out delivery with no loss.

use vstd::arithmetic::div_mod::{lemma_mod_equivalence, lemma_mod_multiples_vanish, lemma_small_mod};
use vstd::prelude::*;

use crate::records::RequestData;
use crate::REQ_BUFFER_SIZE;

verus! {

/// One more than `u64::MAX`: positions wrap at this modulus.
pub open spec fn position_modulus() -> int {
    0x1_0000_0000_0000_0000
}

/// Ring positions `a` and `b` with `a < b < a + cap` land on distinct
/// slots.
proof fn lemma_ring_index_distinct(a: int, b: int, cap: int)
    requires
        cap > 0,
        0 <= a < b,
        b - a < cap,
    ensures
        a % cap != b % cap,
{
    if a % cap == b % cap {
        lemma_mod_equivalence(b, a, cap);
        lemma_small_mod((b - a) as nat, cap as nat);
        assert(false);
    }
}

/// Positions one whole wrap of the counter apart land on the same slot,
/// because the slot count divides the counter's modulus.
proof fn lemma_ring_index_wrap(a: int, cap: int)
    requires
        cap > 0,
        position_modulus() % cap == 0,
        0 <= a,
    ensures
        (a + position_modulus()) % cap == a % cap,
{
    lemma_mod_multiples_vanish(position_modulus() / cap, a, cap);
    assert(cap * (position_modulus() / cap) == position_modulus()) by {
        vstd::arithmetic::div_mod::lemma_fundamental_div_mod(position_modulus(), cap);
    }
}

/// The queued-request ring: a write position, a read position, and the
/// slot buffer. Producers commit at `write`, the consumer side takes at
/// `read`; both only ever advance, wrapping at the counter's modulus.
pub struct RequestQueue {
    write: u64,
    read: u64,
    buffer: Vec<Option<RequestData>>,
}

impl RequestQueue {
    /// How many committed requests sit in the ring: `write - read`,
    /// wrap-aware.
    pub closed spec fn occupancy(self) -> int {
        if self.write >= self.read {
            self.write - self.read
        } else {
            self.write - self.read + position_modulus()
        }
    }

    /// The committed requests, oldest first.
    pub closed spec fn pending(self) -> Seq<RequestData> {
        Seq::new(
            self.occupancy() as nat,
            |k: int| self.buffer@[(self.read + k) % (REQ_BUFFER_SIZE as int)]->Some_0,
        )
    }

    /// The ring's invariant: the buffer has exactly `REQ_BUFFER_SIZE`
    /// slots, the occupancy never exceeds it, and every committed slot
    /// holds a record.
    pub closed spec fn wf(self) -> bool {
        &&& self.buffer@.len() == REQ_BUFFER_SIZE
        &&& 0 <= self.occupancy() <= REQ_BUFFER_SIZE
        &&& forall|k: int|
            0 <= k < self.occupancy() ==> self.buffer@[#[trigger] ((self.read + k) % (
            REQ_BUFFER_SIZE as int))] is Some
    }

    /// An empty ring with both positions at zero.
    pub fn new() -> (r: RequestQueue)
        ensures
            r.wf(),
            r.pending() == Seq::<RequestData>::empty(),
    {
        let mut buffer: Vec<Option<RequestData>> = Vec::new();
        let mut i: usize = 0;
        while i < REQ_BUFFER_SIZE
            invariant
                i <= REQ_BUFFER_SIZE,
                buffer@.len() == i,
            decreases REQ_BUFFER_SIZE - i,
        {
            buffer.push(None);
            i = i + 1;
        }
        let r = RequestQueue { write: 0, read: 0, buffer };
        proof {
            assert(r.pending() =~= Seq::<RequestData>::empty());
        }
        r
    }

    /// Occupancy as a number; zero means empty, `REQ_BUFFER_SIZE` full.
    pub fn len(&self) -> (r: usize)
        requires
            self.wf(),
        ensures
            r == self.occupancy(),
    {
        if self.write >= self.read {
            (self.write - self.read) as usize
        } else {
            // wrapped: occupancy = write - read + 2^64, which wrapping
            // subtraction computes directly
            self.write.wrapping_sub(self.read) as usize
        }
    }

    /// Commits one request at the write position. The caller holds a
    /// `space` reservation, so the ring is not full.
    pub fn enqueue(&mut self, item: RequestData)
        requires
            old(self).wf(),
            old(self).occupancy() < REQ_BUFFER_SIZE,
        ensures
            final(self).wf(),
            final(self).pending() == old(self).pending().push(item),
    {
        let qid = (self.write % (REQ_BUFFER_SIZE as u64)) as usize;
        self.buffer.set(qid, Some(item));
        proof {
            lemma_write_index(*old(self));
            let cap = REQ_BUFFER_SIZE as int;
            // the committed slots are untouched: they sit at other indices
            assert forall|k: int| 0 <= k < old(self).occupancy() implies #[trigger] ((old(
                self,
            ).read + k) % cap) != qid as int by {
                lemma_ring_index_distinct(
                    old(self).read + k,
                    old(self).read + old(self).occupancy(),
                    cap,
                );
                lemma_write_index(*old(self));
            }
        }
        self.write = self.write.wrapping_add(1);
        proof {
            let cap = REQ_BUFFER_SIZE as int;
            assert(self.occupancy() == old(self).occupancy() + 1);
            assert forall|k: int| 0 <= k < self.occupancy() implies self.buffer@[#[trigger] ((
            self.read + k) % cap)] is Some by {
                if k < old(self).occupancy() {
                    assert(old(self).buffer@[(old(self).read + k) % cap] is Some);
                } else {
                    lemma_write_index(*old(self));
                }
            }
            assert(self.pending() =~= old(self).pending().push(item)) by {
                lemma_write_index(*old(self));
            }
        }
    }

    /// Takes the oldest committed request. The caller holds a `count`
    /// reservation, so the ring is not empty.
    pub fn dequeue(&mut self) -> (item: RequestData)
        requires
            old(self).wf(),
            old(self).occupancy() > 0,
        ensures
            final(self).wf(),
            item == old(self).pending()[0],
            final(self).pending() == old(self).pending().skip(1),
    {
        let qid = (self.read % (REQ_BUFFER_SIZE as u64)) as usize;
        let slot = self.buffer[qid];
        let item = match slot {
            Some(item) => item,
            None => {
                proof {
                    assert(self.buffer@[(self.read + 0) % (REQ_BUFFER_SIZE as int)] is Some);
                    assert(false);
                }
                // unreachable: slot 0 of the pending range is committed
                RequestData {
                    client_id: 0,
                    request_id: 0,
                    payload: crate::records::RequestPayload::Delete(crate::records::Key::new()),
                }
            },
        };
        proof {
            assert(item == old(self).pending()[0]);
        }
        self.read = self.read.wrapping_add(1);
        proof {
            let cap = REQ_BUFFER_SIZE as int;
            assert(self.occupancy() == old(self).occupancy() - 1);
            assert forall|k: int| 0 <= k < self.occupancy() implies self.buffer@[#[trigger] ((
            self.read + k) % cap)] is Some by {
                lemma_read_advance(*old(self), k);
            }
            assert(self.pending() =~= old(self).pending().skip(1)) by {
                assert forall|k: int| 0 <= k < self.occupancy() implies self.pending()[k] == old(
                    self,
                ).pending().skip(1)[k] by {
                    lemma_read_advance(*old(self), k);
                }
            }
        }
        item
    }

    /// Commits the request if the ring has room; reports whether it did.
    /// Full means the producer must wait for `space` — the back-pressure
    /// path.
    pub fn try_enqueue(&mut self, item: RequestData) -> (committed: bool)
        requires
            old(self).wf(),
        ensures
            final(self).wf(),
            committed == (old(self).occupancy() < REQ_BUFFER_SIZE),
            committed ==> final(self).pending() == old(self).pending().push(item),
            !committed ==> *final(self) == *old(self),
    {
        if self.len() < REQ_BUFFER_SIZE {
            self.enqueue(item);
            true
        } else {
            false
        }
    }

    /// Takes the oldest request if one is committed.
    pub fn try_dequeue(&mut self) -> (item: Option<RequestData>)
        requires
            old(self).wf(),
        ensures
            final(self).wf(),
            old(self).occupancy() > 0 ==> (item matches Some(i) && i == old(self).pending()[0]
                && final(self).pending() == old(self).pending().skip(1)),
            old(self).occupancy() == 0 ==> item is None && *final(self) == *old(self),
    {
        if self.len() > 0 {
            Some(self.dequeue())
        } else {
            None
        }
    }
}

/// The ring's occupancy — committed writes not yet taken — always lies
/// between zero and the ring's capacity: no producer overruns a slot a
/// consumer has not freed, and no consumer takes what was not
/// committed.
pub proof fn lemma_occupancy_bounded(q: RequestQueue)
    requires
        q.wf(),
    ensures
        0 <= q.occupancy() <= REQ_BUFFER_SIZE,
{
}

/// After `occupancy` steps from `read`, a producer writes at the slot
/// `write` indexes: the positions agree modulo the ring size.
proof fn lemma_write_index(q: RequestQueue)
    requires
        q.wf(),
    ensures
        (q.read + q.occupancy()) % (REQ_BUFFER_SIZE as int) == q.write as int % (REQ_BUFFER_SIZE as int),
{
    let cap = REQ_BUFFER_SIZE as int;
    if q.write >= q.read {
        assert(q.read + q.occupancy() == q.write);
    } else {
        assert(q.read + q.occupancy() == q.write + position_modulus());
        lemma_ring_index_wrap(q.write as int, cap);
    }
}

/// Advancing `read` by one shifts every remaining committed slot's
/// offset down by one.
proof fn lemma_read_advance(q: RequestQueue, k: int)
    requires
        q.wf(),
        q.occupancy() > 0,
        0 <= k < q.occupancy() - 1,
    ensures
        (q.read.wrapping_add(1) + k) % (REQ_BUFFER_SIZE as int) == (q.read + (k + 1)) % (
        REQ_BUFFER_SIZE as int),
{
    let cap = REQ_BUFFER_SIZE as int;
    if q.read == u64::MAX {
        assert(q.read.wrapping_add(1) == 0);
        lemma_ring_index_wrap(k as int, cap);
        assert((q.read + (k + 1)) == (0 + k) + position_modulus());
    } else {
        assert(q.read.wrapping_add(1) == q.read + 1);
    }
}

} // verus!
