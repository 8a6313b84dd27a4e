//! Shared-memory IPC substrate for a multi-process hash-table service.
//!
//! One server process owns an in-memory hash table and serves many client
//! processes through a shared region holding two ring buffers: a bounded
//! multi-producer/single-consumer request ring (clients to workers) and a
//! bounded single-producer/multi-consumer broadcast ring (workers to all
//! currently joined clients). This crate verifies the protocol logic of
//! those rings — slot reclamation, position stamping, the client
//! join/leave lifecycle and its drain obligation, and the fixed-size
//! request/response record schema — as step functions on plain state,
//! together with a whole-system model whose invariants tie them together.
//! The process-shared POSIX primitives and the memory mapping itself are
//! unverified plumbing that drives these steps.

use vstd::prelude::*;

pub mod broadcast;
pub mod bucket;
pub mod client_cli;
pub mod model;
pub mod records;
pub mod request_ring;
pub mod server_cli;
pub mod session;
pub mod shm;
pub mod status;
pub mod workload;

verus! {

/// Sentinel stamped last on region creation; attachers refuse a region
/// whose magic does not match.
pub const MAGIC_VALUE: u32 = 0x77256810;

/// Capacity of the request ring; a power of two.
pub const REQ_BUFFER_SIZE: usize = 2048;

/// Capacity of the response broadcast ring; a power of two.
pub const RES_BUFFER_SIZE: usize = 2048;

/// Name of the POSIX shared-memory object both sides attach to.
pub fn descriptor() -> (r: &'static str)
    ensures
        r@ == seq!['/', 'h', 'a', 's', 'h', 't', 'a', 'b', 'l', 'e'],
{
    let r = "/hashtable";
    proof {
        reveal_strlit("/hashtable");
        assert(r@ =~= seq!['/', 'h', 'a', 's', 'h', 't', 'a', 'b', 'l', 'e']);
    }
    r
}

} // verus!
