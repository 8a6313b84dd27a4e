//! Client-side session lifecycle.
//!
//! Each client runs a background receiver that owns the `read_next`
//! cursor: it polls the broadcast, discards slots addressed to other
//! clients (still taking its read, so the slot accounting stays exact),
//! and forwards the rest to the client's main loop. On shutdown the
//! receiver commits a leave under the tail mutex and then drains every
//! position below the frozen leave target. This module verifies those
//! decisions; the thread, the local channel and the stop flag are
//! unverified plumbing in the surrounding binary.

use vstd::prelude::*;

use crate::records::ResponseData;

verus! {

/// Where the receiver stands in its lifecycle.
#[derive(Clone, Copy, Debug, PartialEq, Eq, Structural)]
pub enum SessionPhase {
    /// Joined: forwarding matching messages to the main loop.
    Running,
    /// Leave committed at the carried position: reading on, discarding,
    /// until the cursor reaches it.
    Draining(u64),
    /// Fully drained; the receiver owes nothing and may exit.
    Left,
}

/// A repeated leave, detected and refused.
#[derive(Clone, Copy, Debug, PartialEq, Eq, Structural)]
pub struct AlreadyLeft;

/// The receiver-side state of one client session.
#[derive(Clone, Copy, Debug)]
pub struct ClientSession {
    /// The random identity this client stamps into requests and filters
    /// responses by.
    pub client_id: u32,
    /// The next broadcast position this receiver reads.
    pub read_next: u64,
    /// Running, draining, or left.
    pub phase: SessionPhase,
}

/// Relies on `rand::random`: a fresh draw from the thread-local
/// generator. Nothing can be promised of the value.
#[verifier::external_body]
fn random_u32() -> u32 {
    rand::random()
}

impl ClientSession {
    /// A session for a known identity, with the cursor the join
    /// snapshotted.
    pub fn new(client_id: u32, cursor: u64) -> (s: ClientSession)
        ensures
            s.client_id == client_id,
            s.read_next == cursor,
            s.phase is Running,
    {
        ClientSession { client_id, read_next: cursor, phase: SessionPhase::Running }
    }

    /// A session under a freshly drawn random identity. Two clients may
    /// collide on the 32-bit draw; the protocol tolerates the resulting
    /// cross-delivery rather than preventing it.
    pub fn attach(cursor: u64) -> (s: ClientSession)
        ensures
            s.read_next == cursor,
            s.phase is Running,
    {
        let client_id = random_u32();
        ClientSession { client_id, read_next: cursor, phase: SessionPhase::Running }
    }

    /// Whether a broadcast message is addressed to this client.
    pub open spec fn addressed_to(self, msg: ResponseData) -> bool {
        msg.client_id == self.client_id
    }

    /// Whether the receiver still reads: running always, draining while
    /// the cursor is below the leave target.
    pub open spec fn wants_read(self) -> bool {
        match self.phase {
            SessionPhase::Running => true,
            SessionPhase::Draining(until) => self.read_next < until,
            SessionPhase::Left => false,
        }
    }

    /// The receiver took one message off the broadcast: the cursor
    /// advances, and the message goes to the main loop exactly when the
    /// session is running and the message is addressed to this client —
    /// non-matching messages and everything seen while draining are
    /// discarded (their read is still taken, so the slot accounting
    /// holds).
    pub fn note_received(&mut self, msg: &ResponseData) -> (deliver: bool)
        requires
            old(self).wants_read(),
            old(self).read_next < u64::MAX,
        ensures
            final(self).client_id == old(self).client_id,
            final(self).phase == old(self).phase,
            final(self).read_next == old(self).read_next + 1,
            deliver == (old(self).phase is Running && old(self).addressed_to(*msg)),
    {
        self.read_next = self.read_next + 1;
        match self.phase {
            SessionPhase::Running => msg.client_id == self.client_id,
            SessionPhase::Draining(_) => false,
            SessionPhase::Left => false,
        }
    }

    /// Commits a leave at the position the tail froze for this client.
    /// A session that already left is detected and unchanged: a second
    /// leave is a no-op.
    pub fn begin_leave(&mut self, drain_until: u64) -> (r: Result<(), AlreadyLeft>)
        ensures
            old(self).phase is Running ==> r is Ok && *final(self) == (ClientSession {
                phase: SessionPhase::Draining(drain_until),
                ..*old(self)
            }),
            !(old(self).phase is Running) ==> (r matches Err(AlreadyLeft) && *final(self)
                == *old(self)),
    {
        match self.phase {
            SessionPhase::Running => {
                self.phase = SessionPhase::Draining(drain_until);
                Ok(())
            },
            SessionPhase::Draining(_) => Err(AlreadyLeft),
            SessionPhase::Left => Err(AlreadyLeft),
        }
    }

    /// Whether the drain obligation is met: every position below the
    /// leave target has been read.
    pub fn drain_finished(&self) -> (r: bool)
        ensures
            r == match self.phase {
                SessionPhase::Running => false,
                SessionPhase::Draining(until) => self.read_next >= until,
                SessionPhase::Left => true,
            },
    {
        match self.phase {
            SessionPhase::Running => false,
            SessionPhase::Draining(until) => self.read_next >= until,
            SessionPhase::Left => true,
        }
    }

    /// Ends a drained session; the receiver thread exits after this.
    pub fn finish_leave(&mut self)
        requires
            old(self).phase matches SessionPhase::Draining(until) && old(self).read_next >= until,
        ensures
            *final(self) == (ClientSession { phase: SessionPhase::Left, ..*old(self) }),
    {
        self.phase = SessionPhase::Left;
    }
}

} // verus!
