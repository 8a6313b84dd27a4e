//! Whole-system model of the broadcast ring and its receivers.
//!
//! The running system scatters this state across processes: the tail
//! and slots live in the shared region, each receiver's cursor in its
//! own client. The model gathers them into one value and drives them
//! with the same step functions the processes use, so the global
//! protocol invariants — receiver accounting, cursor bounds, slot
//! reclamation, and exact fan-out — can be stated and proved as one
//! well-formedness predicate that every transition preserves.

use vstd::prelude::*;

use crate::broadcast::{
    initial_slot, join_step, leave_step, marker_base, pos_val, publish_step, receive_step,
    new_tail, PublishOutcome, ResponseSlot, ResponseTail,
};
use crate::records::ResponseData;

verus! {

/// Where a receiver stands in its lifecycle.
#[derive(Clone, Copy, Debug)]
pub enum ClientPhase {
    /// Owes a read of every message published while it stays.
    Joined,
    /// Committed its leave at the carried position: it still owes every
    /// read below that position, and none from it on.
    Draining(u64),
}

/// One receiver as the model sees it: the next position it will read,
/// and its phase.
#[derive(Clone, Copy, Debug)]
pub struct ClientModel {
    /// The next absolute position this receiver wants.
    pub cursor: u64,
    /// Joined, or draining towards its frozen leave position.
    pub phase: ClientPhase,
}

/// Whether receiver `c` still owes a read of absolute position `p`.
pub open spec fn owes(c: ClientModel, p: int) -> bool {
    match c.phase {
        ClientPhase::Joined => c.cursor as int <= p,
        ClientPhase::Draining(until) => c.cursor as int <= p && p < until as int,
    }
}

/// `owes` as a predicate on receivers, for counting.
pub open spec fn owes_pred(p: int) -> spec_fn(ClientModel) -> bool {
    |c: ClientModel| owes(c, p)
}

/// The joined phase as a predicate on receivers, for counting.
pub open spec fn joined_pred() -> spec_fn(ClientModel) -> bool {
    |c: ClientModel| c.phase is Joined
}

/// How many receivers in `cs` satisfy `pred`.
pub open spec fn count_matching(cs: Seq<ClientModel>, pred: spec_fn(ClientModel) -> bool) -> nat
    decreases cs.len(),
{
    if cs.len() == 0 {
        0
    } else {
        count_matching(cs.drop_last(), pred) + if pred(cs.last()) {
            1nat
        } else {
            0nat
        }
    }
}

/// Receivers still owing a read of position `p`.
pub open spec fn owing_count(cs: Seq<ClientModel>, p: int) -> nat {
    count_matching(cs, owes_pred(p))
}

/// Receivers currently joined.
pub open spec fn joined_count(cs: Seq<ClientModel>) -> nat {
    count_matching(cs, joined_pred())
}

proof fn lemma_count_push(cs: Seq<ClientModel>, pred: spec_fn(ClientModel) -> bool, c: ClientModel)
    ensures
        count_matching(cs.push(c), pred) == count_matching(cs, pred) + if pred(c) {
            1nat
        } else {
            0nat
        },
{
    assert(cs.push(c).drop_last() =~= cs);
    assert(cs.push(c).last() == c);
}

proof fn lemma_count_update(
    cs: Seq<ClientModel>,
    pred: spec_fn(ClientModel) -> bool,
    i: int,
    c: ClientModel,
)
    requires
        0 <= i < cs.len(),
    ensures
        count_matching(cs.update(i, c), pred) + if pred(cs[i]) {
            1nat
        } else {
            0nat
        } == count_matching(cs, pred) + if pred(c) {
            1nat
        } else {
            0nat
        },
    decreases cs.len(),
{
    let cs2 = cs.update(i, c);
    if i == cs.len() - 1 {
        assert(cs2.drop_last() =~= cs.drop_last());
        assert(cs2.last() == c);
    } else {
        assert(cs2.drop_last() =~= cs.drop_last().update(i, c));
        assert(cs2.last() == cs.last());
        lemma_count_update(cs.drop_last(), pred, i, c);
    }
}

proof fn lemma_count_remove(cs: Seq<ClientModel>, pred: spec_fn(ClientModel) -> bool, i: int)
    requires
        0 <= i < cs.len(),
    ensures
        count_matching(cs.remove(i), pred) + if pred(cs[i]) {
            1nat
        } else {
            0nat
        } == count_matching(cs, pred),
    decreases cs.len(),
{
    if i == cs.len() - 1 {
        assert(cs.remove(i) =~= cs.drop_last());
    } else {
        assert(cs.remove(i).drop_last() =~= cs.drop_last().remove(i));
        assert(cs.remove(i).last() == cs.last());
        lemma_count_remove(cs.drop_last(), pred, i);
    }
}

proof fn lemma_count_pointwise(
    cs: Seq<ClientModel>,
    p1: spec_fn(ClientModel) -> bool,
    p2: spec_fn(ClientModel) -> bool,
)
    requires
        forall|j: int| 0 <= j < cs.len() ==> (#[trigger] p1(cs[j]) <==> p2(cs[j])),
    ensures
        count_matching(cs, p1) == count_matching(cs, p2),
    decreases cs.len(),
{
    if cs.len() > 0 {
        assert(forall|j: int|
            0 <= j < cs.drop_last().len() ==> #[trigger] cs.drop_last()[j] == cs[j]);
        lemma_count_pointwise(cs.drop_last(), p1, p2);
        assert(p1(cs.last()) <==> p2(cs.last()));
    }
}

proof fn lemma_count_ge_one(cs: Seq<ClientModel>, pred: spec_fn(ClientModel) -> bool, i: int)
    requires
        0 <= i < cs.len(),
        pred(cs[i]),
    ensures
        count_matching(cs, pred) >= 1,
    decreases cs.len(),
{
    if i < cs.len() - 1 {
        lemma_count_ge_one(cs.drop_last(), pred, i);
    }
}

proof fn lemma_count_zero(cs: Seq<ClientModel>, pred: spec_fn(ClientModel) -> bool)
    requires
        forall|j: int| 0 <= j < cs.len() ==> !#[trigger] pred(cs[j]),
    ensures
        count_matching(cs, pred) == 0,
    decreases cs.len(),
{
    if cs.len() > 0 {
        assert(forall|j: int|
            0 <= j < cs.drop_last().len() ==> #[trigger] cs.drop_last()[j] == cs[j]);
        lemma_count_zero(cs.drop_last(), pred);
    }
}

/// The broadcast ring and every receiver of it, gathered into one value.
pub struct BroadcastModel {
    /// The ring's slots.
    pub slots: Vec<ResponseSlot>,
    /// The publisher-side tail state.
    pub tail: ResponseTail,
    /// Every receiver that has joined and not yet fully departed.
    pub clients: Vec<ClientModel>,
    /// Every message published so far, by position.
    pub history: Ghost<Seq<ResponseData>>,
}

impl BroadcastModel {
    /// Number of slots in the ring.
    pub open spec fn cap(self) -> int {
        self.slots@.len() as int
    }

    /// The tail position as a number.
    pub open spec fn tail_pos(self) -> int {
        self.tail.pos as int
    }

    /// The position slot `i` currently stands for.
    pub open spec fn slot_pos(self, i: int) -> int {
        pos_val(self.slots@[i].pos, self.cap())
    }

    /// A receiver's phase and cursor are consistent with the tail: its
    /// cursor never passes the tail, and a draining receiver's frozen
    /// leave position sits between its cursor and the tail.
    pub open spec fn client_ok(self, c: ClientModel) -> bool {
        match c.phase {
            ClientPhase::Joined => c.cursor as int <= self.tail_pos(),
            ClientPhase::Draining(until) => c.cursor as int <= until as int <= self.tail_pos(),
        }
    }

    /// Slot `i` is consistent with the ring: it stands for a position
    /// strictly below the tail that lands on it; its reader quorum is
    /// exactly the receivers still owing that position; and it holds
    /// the published message exactly while somebody still owes it.
    pub open spec fn slot_ok(self, i: int) -> bool {
        let p = self.slot_pos(i);
        &&& p < self.tail_pos()
        &&& p % self.cap() == i
        &&& self.slots@[i].rem == owing_count(self.clients@, p)
        &&& self.slots@[i].rem > 0 ==> 0 <= p && self.slots@[i].val == Some(self.history@[p])
        &&& self.slots@[i].rem == 0 ==> self.slots@[i].val is None
    }

    /// The system invariant.
    pub open spec fn wf(self) -> bool {
        &&& 1 <= self.cap()
        &&& self.tail_pos() < marker_base(self.cap())
        &&& self.tail_pos() == self.history@.len()
        &&& self.tail.rx_cnt == joined_count(self.clients@)
        &&& forall|j: int| 0 <= j < self.clients@.len() ==> self.client_ok(#[trigger] self.clients@[j])
        &&& forall|i: int| 0 <= i < self.cap() ==> self.slot_ok(i)
        &&& forall|q: int|
            0 <= q < self.tail_pos() && #[trigger] owing_count(self.clients@, q) > 0
                ==> self.slot_pos(q % self.cap()) == q
    }

    /// A fresh ring of `ring_size` slots: nothing published, nobody
    /// joined, every slot free and stamped with its initialization
    /// marker.
    pub fn new(ring_size: usize) -> (m: BroadcastModel)
        requires
            1 <= ring_size,
        ensures
            m.wf(),
            m.cap() == ring_size,
            m.tail.pos == 0,
            m.tail.rx_cnt == 0,
            m.clients@ == Seq::<ClientModel>::empty(),
            m.history@ == Seq::<ResponseData>::empty(),
    {
        let mut slots: Vec<ResponseSlot> = Vec::new();
        let mut i: usize = 0;
        while i < ring_size
            invariant
                i <= ring_size,
                slots@.len() == i,
                forall|j: int|
                    0 <= j < i ==> {
                        &&& (#[trigger] slots@[j]).rem == 0
                        &&& slots@[j].val is None
                        &&& pos_val(slots@[j].pos, ring_size as int) == j - ring_size
                    },
            decreases ring_size - i,
        {
            slots.push(initial_slot(i, ring_size));
            i = i + 1;
        }
        let m = BroadcastModel {
            slots,
            tail: new_tail(),
            clients: Vec::new(),
            history: Ghost(Seq::empty()),
        };
        proof {
            assert forall|i2: int| 0 <= i2 < m.cap() implies m.slot_ok(i2) by {
                let cap = m.cap();
                let p = m.slot_pos(i2);
                assert(p == i2 - cap);
                assert((i2 - cap) % cap == i2) by {
                    vstd::arithmetic::div_mod::lemma_mod_add_multiples_vanish(i2 - cap, cap);
                    vstd::arithmetic::div_mod::lemma_small_mod(i2 as nat, cap as nat);
                }
                lemma_count_zero(m.clients@, owes_pred(p));
            }
            assert forall|q: int|
                0 <= q < m.tail_pos() && #[trigger] owing_count(m.clients@, q) > 0 implies m
                .slot_pos(q % m.cap()) == q by {}
        }
        m
    }

    /// A receiver joins: under the tail mutex it snapshots the current
    /// position as its cursor and raises the receiver count. It owes
    /// every message from the next publish on, and none before.
    pub fn join(&mut self) -> (idx: usize)
        requires
            old(self).wf(),
            old(self).tail.rx_cnt < usize::MAX,
            old(self).clients@.len() < usize::MAX,
        ensures
            final(self).wf(),
            idx == old(self).clients@.len(),
            final(self).clients@ == old(self).clients@.push(
                ClientModel { cursor: old(self).tail.pos, phase: ClientPhase::Joined },
            ),
            final(self).tail.pos == old(self).tail.pos,
            final(self).tail.rx_cnt == old(self).tail.rx_cnt + 1,
            final(self).slots@ == old(self).slots@,
            final(self).history@ == old(self).history@,
    {
        let idx = self.clients.len();
        let cursor = join_step(&mut self.tail);
        let joiner = ClientModel { cursor, phase: ClientPhase::Joined };
        self.clients.push(joiner);
        proof {
            let cs = old(self).clients@;
            lemma_count_push(cs, joined_pred(), joiner);
            assert forall|i: int| 0 <= i < self.cap() implies self.slot_ok(i) by {
                let p = self.slot_pos(i);
                assert(old(self).slot_ok(i));
                assert(!owes(joiner, p));
                lemma_count_push(cs, owes_pred(p), joiner);
            }
            assert forall|q: int|
                0 <= q < self.tail_pos() && #[trigger] owing_count(self.clients@, q) > 0 implies self
                .slot_pos(q % self.cap()) == q by {
                lemma_count_push(cs, owes_pred(q), joiner);
                assert(!owes(joiner, q));
                assert(owing_count(cs, q) > 0);
            }
        }
        idx
    }

    /// A receiver leaves: under the tail mutex the receiver count drops
    /// and the current position is frozen as its drain target. On a
    /// receiver that already left, nothing changes and the repeat is
    /// reported as `None`: a second leave is a detectable no-op.
    pub fn try_leave(&mut self, idx: usize) -> (r: Option<u64>)
        requires
            old(self).wf(),
            idx < old(self).clients@.len(),
        ensures
            final(self).wf(),
            old(self).clients@[idx as int].phase is Joined ==> {
                &&& r matches Some(until) && until == old(self).tail.pos
                &&& final(self).clients@ == old(self).clients@.update(
                    idx as int,
                    ClientModel {
                        cursor: old(self).clients@[idx as int].cursor,
                        phase: ClientPhase::Draining(old(self).tail.pos),
                    },
                )
                &&& final(self).tail.pos == old(self).tail.pos
                &&& final(self).tail.rx_cnt == old(self).tail.rx_cnt - 1
                &&& final(self).slots@ == old(self).slots@
                &&& final(self).history@ == old(self).history@
            },
            !(old(self).clients@[idx as int].phase is Joined) ==> r is None && *final(self) == *old(
                self,
            ),
    {
        let c = self.clients[idx];
        match c.phase {
            ClientPhase::Draining(_) => {
                return None;
            },
            ClientPhase::Joined => {},
        }
        proof {
            lemma_count_ge_one(self.clients@, joined_pred(), idx as int);
        }
        let until = leave_step(&mut self.tail);
        let leaver = ClientModel { cursor: c.cursor, phase: ClientPhase::Draining(until) };
        self.clients.set(idx, leaver);
        proof {
            let cs = old(self).clients@;
            lemma_count_update(cs, joined_pred(), idx as int, leaver);
            assert forall|i: int| 0 <= i < self.cap() implies self.slot_ok(i) by {
                let p = self.slot_pos(i);
                assert(old(self).slot_ok(i));
                assert(owes(c, p) <==> owes(leaver, p));
                lemma_count_update(cs, owes_pred(p), idx as int, leaver);
            }
            assert forall|q: int|
                0 <= q < self.tail_pos() && #[trigger] owing_count(self.clients@, q) > 0 implies self
                .slot_pos(q % self.cap()) == q by {
                assert(owes(c, q) <==> owes(leaver, q));
                lemma_count_update(cs, owes_pred(q), idx as int, leaver);
                assert(owing_count(cs, q) > 0);
            }
        }
        Some(until)
    }

    /// A fully drained receiver departs: its cursor reached its drain
    /// target, so it owes nothing, and removing it changes no slot's
    /// accounting.
    pub fn depart(&mut self, idx: usize)
        requires
            old(self).wf(),
            idx < old(self).clients@.len(),
            old(self).clients@[idx as int].phase matches ClientPhase::Draining(until) && old(
                self,
            ).clients@[idx as int].cursor == until,
        ensures
            final(self).wf(),
            final(self).clients@ == old(self).clients@.remove(idx as int),
            final(self).tail == old(self).tail,
            final(self).slots@ == old(self).slots@,
            final(self).history@ == old(self).history@,
    {
        self.clients.remove(idx);
        proof {
            let cs = old(self).clients@;
            let c = cs[idx as int];
            lemma_count_remove(cs, joined_pred(), idx as int);
            assert forall|i: int| 0 <= i < self.cap() implies self.slot_ok(i) by {
                let p = self.slot_pos(i);
                assert(old(self).slot_ok(i));
                assert(!owes(c, p));
                lemma_count_remove(cs, owes_pred(p), idx as int);
            }
            assert forall|q: int|
                0 <= q < self.tail_pos() && #[trigger] owing_count(self.clients@, q) > 0 implies self
                .slot_pos(q % self.cap()) == q by {
                assert(!owes(c, q));
                lemma_count_remove(cs, owes_pred(q), idx as int);
                assert(owing_count(cs, q) > 0);
            }
        }
    }

    /// The slot receiver `idx` polls next.
    pub open spec fn cursor_slot(self, idx: int) -> int {
        self.clients@[idx].cursor as int % self.cap()
    }

    /// Whether that slot already holds the receiver's next message.
    pub open spec fn ready(self, idx: int) -> bool {
        self.slot_pos(self.cursor_slot(idx)) == self.clients@[idx].cursor as int
    }

    /// Whether the receiver still reads at all: joined, or draining with
    /// reads left below its drain target.
    pub open spec fn may_receive(self, idx: int) -> bool {
        match self.clients@[idx].phase {
            ClientPhase::Joined => true,
            ClientPhase::Draining(until) => self.clients@[idx].cursor < until,
        }
    }

    /// One receive attempt by receiver `idx`: under the slot's read lock
    /// the stamp is compared against the receiver's cursor; on a match
    /// the receiver takes the message published at its cursor position,
    /// advances, and leaves the reader quorum one smaller — as the last
    /// reader it frees the slot.
    pub fn receive(&mut self, idx: usize) -> (r: Option<ResponseData>)
        requires
            old(self).wf(),
            idx < old(self).clients@.len(),
            old(self).may_receive(idx as int),
        ensures
            final(self).wf(),
            final(self).tail == old(self).tail,
            final(self).history@ == old(self).history@,
            (r is Some) == old(self).ready(idx as int),
            !old(self).ready(idx as int) ==> *final(self) == *old(self),
            old(self).ready(idx as int) ==> {
                let c = old(self).clients@[idx as int];
                let i = old(self).cursor_slot(idx as int);
                let s = old(self).slots@[i];
                &&& r matches Some(msg) && msg == old(self).history@[c.cursor as int]
                &&& final(self).clients@ == old(self).clients@.update(
                    idx as int,
                    ClientModel { cursor: (c.cursor + 1) as u64, phase: c.phase },
                )
                &&& final(self).slots@ == old(self).slots@.update(
                    i,
                    ResponseSlot {
                        rem: (s.rem - 1) as usize,
                        pos: s.pos,
                        val: if s.rem == 1 {
                            Option::<ResponseData>::None
                        } else {
                            s.val
                        },
                    },
                )
            },
    {
        let c = self.clients[idx];
        let i = (c.cursor % (self.slots.len() as u64)) as usize;
        let ghost cap = self.cap();
        let ghost p = c.cursor as int;
        proof {
            assert(self.client_ok(self.clients@[idx as int]));
            assert(p < marker_base(cap));
            assert(i == p % cap) by {
                vstd::arithmetic::div_mod::lemma_mod_bound(p, cap);
            }
            if self.slots@[i as int].pos == c.cursor {
                // the stamp matches, so the receiver owes this slot and
                // its quorum cannot be empty
                assert(self.slot_pos(i as int) == p);
                assert(owes(c, p));
                lemma_count_ge_one(self.clients@, owes_pred(p), idx as int);
                assert(self.slot_ok(i as int));
            } else {
                assert(self.slot_pos(i as int) != p);
            }
        }
        let mut s = self.slots[i];
        let step = receive_step(&mut s, c.cursor);
        match step {
            None => {
                proof {
                    assert(!old(self).ready(idx as int));
                }
                None
            },
            Some((msg, _last)) => {
                proof {
                    assert(old(self).ready(idx as int));
                    assert(p < old(self).tail_pos());
                }
                self.slots.set(i, s);
                let advanced = ClientModel { cursor: c.cursor + 1, phase: c.phase };
                self.clients.set(idx, advanced);
                proof {
                    let cs = old(self).clients@;
                    lemma_count_update(cs, joined_pred(), idx as int, advanced);
                    assert forall|j: int| 0 <= j < self.clients@.len() implies self.client_ok(
                        #[trigger] self.clients@[j],
                    ) by {
                        assert(old(self).client_ok(cs[j]));
                    }
                    assert forall|j: int| 0 <= j < self.cap() implies self.slot_ok(j) by {
                        assert(old(self).slot_ok(j));
                        let pj = self.slot_pos(j);
                        if j == i as int {
                            assert(!owes(advanced, p));
                            lemma_count_update(cs, owes_pred(p), idx as int, advanced);
                        } else {
                            assert(old(self).slot_pos(j) == pj);
                            assert(pj % cap == j);
                            assert(pj != p);
                            assert(owes(c, pj) <==> owes(advanced, pj));
                            lemma_count_update(cs, owes_pred(pj), idx as int, advanced);
                        }
                    }
                    assert forall|q: int|
                        0 <= q < self.tail_pos() && #[trigger] owing_count(self.clients@, q)
                            > 0 implies self.slot_pos(q % self.cap()) == q by {
                        lemma_count_update(cs, owes_pred(q), idx as int, advanced);
                        if q == p {
                            assert(self.slot_pos(p % cap) == p);
                        } else {
                            assert(owes(c, q) <==> owes(advanced, q));
                            assert(owing_count(cs, q) > 0);
                            assert(old(self).slot_pos(q % cap) == q);
                        }
                    }
                }
                Some(msg)
            },
        }
    }

    /// The slot the next publish lands in.
    pub open spec fn publish_slot(self) -> int {
        self.tail_pos() % self.cap()
    }

    /// One publish attempt: under the tail mutex the message is dropped
    /// when nobody is joined; otherwise, under the target slot's write
    /// lock, the slot must be free — a still-owed slot forces a retry
    /// (the publisher's back-pressure) — and is then stamped with the
    /// position and the reader quorum set to every currently joined
    /// receiver.
    pub fn publish(&mut self, item: ResponseData) -> (r: PublishOutcome)
        requires
            old(self).wf(),
            old(self).tail_pos() + 1 < marker_base(old(self).cap()),
        ensures
            final(self).wf(),
            final(self).clients@ == old(self).clients@,
            old(self).tail.rx_cnt == 0 ==> r is Dropped && *final(self) == *old(self),
            old(self).tail.rx_cnt > 0 && old(self).slots@[old(self).publish_slot()].rem > 0 ==> r
                is Busy && *final(self) == *old(self),
            old(self).tail.rx_cnt > 0 && old(self).slots@[old(self).publish_slot()].rem == 0 ==> {
                let p = old(self).tail_pos();
                let i = old(self).publish_slot();
                &&& r matches PublishOutcome::Published { pos } && pos == old(self).tail.pos
                &&& final(self).tail.pos == old(self).tail.pos + 1
                &&& final(self).tail.rx_cnt == old(self).tail.rx_cnt
                &&& final(self).history@ == old(self).history@.push(item)
                &&& final(self).slots@ == old(self).slots@.update(
                    i,
                    ResponseSlot { rem: old(self).tail.rx_cnt, pos: old(self).tail.pos, val: Some(item) },
                )
            },
    {
        let i = (self.tail.pos % (self.slots.len() as u64)) as usize;
        let ghost cap = self.cap();
        let ghost p = self.tail_pos();
        proof {
            assert(i == p % cap) by {
                vstd::arithmetic::div_mod::lemma_mod_bound(p, cap);
            }
        }
        let mut s = self.slots[i];
        let step = publish_step(&mut self.tail, &mut s, item);
        match step {
            PublishOutcome::Dropped => PublishOutcome::Dropped,
            PublishOutcome::Busy => PublishOutcome::Busy,
            PublishOutcome::Published { pos } => {
                self.slots.set(i, s);
                proof {
                    self.history@ = old(self).history@.push(item);
                }
                proof {
                    let cs = self.clients@;
                    assert forall|j: int| 0 <= j < cs.len() implies self.client_ok(
                        #[trigger] cs[j],
                    ) by {
                        assert(old(self).client_ok(cs[j]));
                    }
                    // exactly the joined receivers owe the fresh position
                    assert forall|j: int| 0 <= j < cs.len() implies (#[trigger] owes_pred(p)(cs[j])
                        <==> joined_pred()(cs[j])) by {
                        assert(old(self).client_ok(cs[j]));
                    }
                    lemma_count_pointwise(cs, owes_pred(p), joined_pred());
                    assert forall|j: int| 0 <= j < self.cap() implies self.slot_ok(j) by {
                        assert(old(self).slot_ok(j));
                        if j == i as int {
                            assert(self.slot_pos(j) == p);
                        } else {
                            assert(self.slot_pos(j) == old(self).slot_pos(j));
                            if self.slots@[j].rem > 0 {
                                assert(0 <= self.slot_pos(j) < old(self).history@.len());
                                assert(self.history@[self.slot_pos(j)] == old(self).history@[self
                                    .slot_pos(j)]);
                            }
                        }
                    }
                    assert forall|q: int|
                        0 <= q < self.tail_pos() && #[trigger] owing_count(self.clients@, q)
                            > 0 implies self.slot_pos(q % self.cap()) == q by {
                        if q == p {
                            assert(self.slot_pos(p % cap) == p);
                        } else {
                            assert(q < old(self).tail_pos());
                            assert(old(self).slot_pos(q % cap) == q);
                            if q % cap == i as int {
                                // the overwritten stamp was free: nobody
                                // owed it, so no such owed position maps
                                // to this slot
                                assert(old(self).slot_ok(i as int));
                                assert(old(self).slot_pos(i as int) == q);
                                assert(false);
                            }
                        }
                    }
                }
                PublishOutcome::Published { pos }
            },
        }
    }
}

/// A slot whose reader quorum reached zero is free for the next publish
/// that lands on it: no receiver owes a read of what it holds, its
/// payload has been dropped in place, and the position it stands for is
/// strictly below every future publish position. (That a publish into
/// such a slot then succeeds is the `Published` case of
/// [`BroadcastModel::publish`].)
pub proof fn lemma_free_slot_is_reclaimed(m: BroadcastModel, i: int)
    requires
        m.wf(),
        0 <= i < m.cap(),
        m.slots@[i].rem == 0,
    ensures
        owing_count(m.clients@, m.slot_pos(i)) == 0,
        m.slots@[i].val is None,
        m.slot_pos(i) < m.tail_pos(),
{
    assert(m.slot_ok(i));
}

/// No receiver's cursor ever passes the tail, and a draining receiver's
/// frozen leave position sits between its cursor and the tail.
pub proof fn lemma_cursor_within_tail(m: BroadcastModel, j: int)
    requires
        m.wf(),
        0 <= j < m.clients@.len(),
    ensures
        m.clients@[j].cursor as int <= m.tail_pos(),
        m.clients@[j].phase matches ClientPhase::Draining(until) ==> m.clients@[j].cursor <= until
            <= m.tail.pos,
{
    assert(m.client_ok(m.clients@[j]));
}

/// The receiver count under the tail mutex is exactly the number of
/// currently joined receivers.
pub proof fn lemma_receiver_count_exact(m: BroadcastModel)
    requires
        m.wf(),
    ensures
        m.tail.rx_cnt == joined_count(m.clients@),
{
}

/// At the moment a message is published at the tail position, the
/// receivers owing a read of it are exactly the currently joined ones —
/// every joined receiver's cursor is at or below the position, and no
/// draining or fresh receiver owes it — so the reader quorum the
/// publisher installs equals the number owing, and (by each slot's
/// accounting in `wf`) stays equal as reads are taken.
pub proof fn lemma_publish_fanout(m: BroadcastModel)
    requires
        m.wf(),
    ensures
        forall|j: int|
            0 <= j < m.clients@.len() ==> (owes(#[trigger] m.clients@[j], m.tail_pos())
                <==> m.clients@[j].phase is Joined),
        owing_count(m.clients@, m.tail_pos()) == m.tail.rx_cnt,
{
    let p = m.tail_pos();
    assert forall|j: int| 0 <= j < m.clients@.len() implies (owes(
        #[trigger] m.clients@[j],
        p,
    ) <==> m.clients@[j].phase is Joined) by {
        assert(m.client_ok(m.clients@[j]));
    }
    assert forall|j: int| 0 <= j < m.clients@.len() implies (#[trigger] owes_pred(p)(m.clients@[j])
        <==> joined_pred()(m.clients@[j])) by {
        assert(m.client_ok(m.clients@[j]));
    }
    lemma_count_pointwise(m.clients@, owes_pred(p), joined_pred());
}

/// A receiver that still owes its own cursor position, with that
/// position already published, finds its slot ready: the slot it polls
/// is stamped with exactly its cursor. In particular a leaver's drain
/// loop — cursor still below the frozen leave position — never finds an
/// empty slot, so the drain always completes and cannot stall the
/// publisher's reclamation.
pub proof fn lemma_pending_read_ready(m: BroadcastModel, j: int)
    requires
        m.wf(),
        0 <= j < m.clients@.len(),
        m.may_receive(j),
        (m.clients@[j].cursor as int) < m.tail_pos(),
    ensures
        m.ready(j),
{
    let c = m.clients@[j];
    let p = c.cursor as int;
    assert(owes(c, p));
    lemma_count_ge_one(m.clients@, owes_pred(p), j);
    assert(owing_count(m.clients@, p) > 0);
    assert(m.slot_pos(p % m.cap()) == p);
}

} // verus!
