//! Bounded SPMC broadcast ring: worker publishers, every joined client a
//! consumer.
//!
//! Each slot carries the absolute position it last held (`pos`), the
//! number of receivers still owing a read (`rem`), and the payload. A
//! publisher stamps a slot under the tail mutex and the slot's write
//! lock; a receiver polls under the slot's read lock, using the stamp as
//! its readiness test, and the last receiver frees the slot. This module
//! verifies those steps on the plain state the locks guard; the locks,
//! the `space` semaphore, and the atomics themselves are unverified
//! plumbing around them.

use vstd::prelude::*;

use crate::records::ResponseData;

verus! {

/// Stamps at or above this value (for a ring of `cap` slots) are the
/// initialization markers; publish positions stay strictly below it.
pub open spec fn marker_base(cap: int) -> int {
    0x1_0000_0000_0000_0000 - cap
}

/// The position a slot's stamp denotes. Initialization stamps slot `i`
/// with `i - cap` wrapped to the top of the counter's range, one whole
/// ring before any publish position, so a reader's equality test can
/// never mistake a fresh slot for its own next message.
pub open spec fn pos_val(p: u64, cap: int) -> int {
    if p as int >= marker_base(cap) {
        p as int - 0x1_0000_0000_0000_0000
    } else {
        p as int
    }
}

/// Publisher-side shared state: the next write position and the number
/// of currently joined receivers.
#[derive(Clone, Copy, Debug)]
pub struct ResponseTail {
    /// Absolute position of the next publish.
    pub pos: u64,
    /// Receivers that will each owe a read of every future message.
    pub rx_cnt: usize,
}

/// One broadcast slot: receivers still owing a read, the absolute
/// position the slot last held, and the payload (valid while `rem > 0`).
#[derive(Clone, Copy, Debug)]
pub struct ResponseSlot {
    /// Receivers that still owe a read; zero means reusable.
    pub rem: usize,
    /// The absolute position this slot last held.
    pub pos: u64,
    /// The payload; present exactly while some receiver still owes a read.
    pub val: Option<ResponseData>,
}

/// What a publish attempt did.
#[derive(Clone, Copy, Debug)]
pub enum PublishOutcome {
    /// No receiver is joined: the message is discarded and the slot
    /// reservation handed back.
    Dropped,
    /// The target slot still has readers owing: the publisher must wait
    /// and retry.
    Busy,
    /// The message was stamped into the slot at this position.
    Published { pos: u64 },
}

/// The tail state before the first publish: position zero, no receivers.
pub fn new_tail() -> (t: ResponseTail)
    ensures
        t.pos == 0,
        t.rx_cnt == 0,
{
    ResponseTail { pos: 0, rx_cnt: 0 }
}

/// The initialization state of slot `index` in a ring of `cap` slots:
/// free, empty, stamped one whole ring before position zero.
pub fn initial_slot(index: usize, cap: usize) -> (s: ResponseSlot)
    requires
        index < cap,
    ensures
        s.rem == 0,
        s.val is None,
        pos_val(s.pos, cap as int) == index - cap,
{
    ResponseSlot { rem: 0, pos: (index as u64).wrapping_sub(cap as u64), val: None }
}

/// The slot a position lands in, for the fixed ring size of the shared
/// region.
pub fn slot_index_of(pos: u64) -> (i: usize)
    ensures
        i == pos as int % (crate::RES_BUFFER_SIZE as int),
{
    (pos % (crate::RES_BUFFER_SIZE as u64)) as usize
}

/// One publish attempt, made with the tail mutex and the target slot's
/// write lock held; the caller picks the slot that `old(tail).pos`
/// lands in. With no receiver joined the message is dropped; with the
/// slot still owed it must be retried; otherwise the slot is stamped
/// with the position, its reader quorum set to the receiver count, and
/// the tail advanced.
pub fn publish_step(tail: &mut ResponseTail, slot: &mut ResponseSlot, item: ResponseData) -> (r:
    PublishOutcome)
    requires
        old(tail).pos < u64::MAX,
    ensures
        old(tail).rx_cnt == 0 ==> r is Dropped && *final(tail) == *old(tail) && *final(slot)
            == *old(slot),
        old(tail).rx_cnt > 0 && old(slot).rem > 0 ==> r is Busy && *final(tail) == *old(tail)
            && *final(slot) == *old(slot),
        old(tail).rx_cnt > 0 && old(slot).rem == 0 ==> {
            &&& r matches PublishOutcome::Published { pos } && pos == old(tail).pos
            &&& final(tail).pos == old(tail).pos + 1
            &&& final(tail).rx_cnt == old(tail).rx_cnt
            &&& final(slot).pos == old(tail).pos
            &&& final(slot).rem == old(tail).rx_cnt
            &&& final(slot).val == Some(item)
        },
{
    if tail.rx_cnt == 0 {
        return PublishOutcome::Dropped;
    }
    if slot.rem > 0 {
        return PublishOutcome::Busy;
    }
    let pos = tail.pos;
    let rem = tail.rx_cnt;
    tail.pos = tail.pos.wrapping_add(1);
    slot.pos = pos;
    slot.rem = rem;
    slot.val = Some(item);
    PublishOutcome::Published { pos }
}

/// One receive attempt, made with the slot's read lock held. The stamp
/// is the readiness test: a mismatch means the slot does not yet hold
/// the reader's next message. On a match the reader takes a copy,
/// leaves the reader quorum one smaller, and — as the last reader —
/// drops the payload in place; the returned flag tells the caller to
/// hand the slot reservation back (`space.post`).
pub fn receive_step(slot: &mut ResponseSlot, read_next: u64) -> (r: Option<(ResponseData, bool)>)
    requires
        old(slot).pos == read_next ==> old(slot).rem >= 1 && old(slot).val is Some,
    ensures
        old(slot).pos != read_next ==> r is None && *final(slot) == *old(slot),
        old(slot).pos == read_next ==> {
            &&& r matches Some((msg, last)) && msg == old(slot).val->Some_0 && last == (old(
                slot,
            ).rem == 1)
            &&& final(slot).pos == old(slot).pos
            &&& final(slot).rem == old(slot).rem - 1
            &&& final(slot).val == if old(slot).rem == 1 {
                Option::<ResponseData>::None
            } else {
                old(slot).val
            }
        },
{
    if slot.pos != read_next {
        return None;
    }
    let msg = match slot.val {
        Some(msg) => msg,
        None => {
            proof {
                assert(false);
            }
            // unreachable: an owed slot holds its payload
            ResponseData {
                client_id: 0,
                request_id: 0,
                payload: crate::records::ResponsePayload::NotFound,
            }
        },
    };
    let last = slot.rem == 1;
    slot.rem = slot.rem - 1;
    if last {
        // last receiver: drop the payload in place, the slot is reusable
        slot.val = None;
    }
    Some((msg, last))
}

/// A join, made under the tail mutex: the joiner snapshots the current
/// position as its cursor — it owes every message from the next publish
/// on, and none before — and raises the receiver count. The count
/// overflowing the machine word is fatal upstream, so it is excluded
/// here.
pub fn join_step(tail: &mut ResponseTail) -> (cursor: u64)
    requires
        old(tail).rx_cnt < usize::MAX,
    ensures
        final(tail).pos == old(tail).pos,
        final(tail).rx_cnt == old(tail).rx_cnt + 1,
        cursor == old(tail).pos,
{
    tail.rx_cnt = tail.rx_cnt + 1;
    tail.pos
}

/// A leave commit, made under the tail mutex: the receiver count drops
/// and the current position is frozen as the leaver's drain target —
/// it still owes a read of every slot below it.
pub fn leave_step(tail: &mut ResponseTail) -> (drain_until: u64)
    requires
        old(tail).rx_cnt >= 1,
    ensures
        final(tail).pos == old(tail).pos,
        final(tail).rx_cnt == old(tail).rx_cnt - 1,
        drain_until == old(tail).pos,
{
    tail.rx_cnt = tail.rx_cnt - 1;
    tail.pos
}

} // verus!
