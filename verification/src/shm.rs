//! Shared-memory region bookkeeping.
//!
//! The region is created by the server, which initializes every
//! process-shared primitive in place and stamps the magic sentinel
//! last; a client refuses to attach until the sentinel matches. The
//! system calls that create, map and unlink the region are unverified
//! plumbing in the surrounding binaries; this module verifies the
//! readiness gate and the heap-first construction of the large ring
//! buffers, which must not be built on a thread's stack.

use vstd::prelude::*;

use crate::MAGIC_VALUE;

verus! {

/// Marker for types whose values may live in the shared region: laid
/// out identically in every process built from these definitions, with
/// no pointers into any single address space.
pub trait ShmSafe {

}

/// An attach was attempted before the creator stamped the region ready.
#[derive(Clone, Copy, Debug, PartialEq, Eq, Structural)]
pub struct NotReady;

/// The region's readiness gate: attaching succeeds exactly when the
/// stored sentinel is the agreed magic value, which the creator stores
/// only after every primitive in the payload is initialized.
pub fn check_ready(magic: u32) -> (r: Result<(), NotReady>)
    ensures
        magic == MAGIC_VALUE ==> r is Ok,
        magic != MAGIC_VALUE ==> r matches Err(NotReady),
{
    if magic == MAGIC_VALUE {
        Ok(())
    } else {
        Err(NotReady)
    }
}

/// What the mapped region holds: the magic sentinel, then the payload.
pub struct SharedMemoryContents<T> {
    /// Stamped with [`MAGIC_VALUE`] by the creator, after the payload is
    /// initialized; never changed afterwards.
    pub magic: u32,
    /// The payload the processes share.
    pub contents: T,
}

impl<T> SharedMemoryContents<T> {
    /// A fully initialized region image, already stamped ready.
    pub fn new(contents: T) -> (r: SharedMemoryContents<T>)
        ensures
            r.magic == MAGIC_VALUE,
            r.contents == contents,
    {
        SharedMemoryContents { magic: MAGIC_VALUE, contents }
    }

    /// Whether an attacher may use the payload.
    pub fn is_ready(&self) -> (r: bool)
        ensures
            r == (self.magic == MAGIC_VALUE),
    {
        self.magic == MAGIC_VALUE
    }

    /// The payload.
    pub fn get(&self) -> (r: &T)
        ensures
            r == self.contents,
    {
        &self.contents
    }
}

/// An array image of `N` elements built on the heap, to be copied into
/// the shared region in one move: the ring buffers are far too large to
/// pass across a stack frame.
pub struct HeapArrayInit<T, const N: usize> {
    inner: Vec<T>,
}

impl<T, const N: usize> View for HeapArrayInit<T, N> {
    type V = Seq<T>;

    closed spec fn view(&self) -> Seq<T> {
        self.inner@
    }
}

impl<T, const N: usize> HeapArrayInit<T, N> {
    /// Builds the image element by element, on the heap, calling `init`
    /// with each index in order.
    pub fn from_fn<F: Fn(usize) -> T>(init: F) -> (r: HeapArrayInit<T, N>)
        requires
            forall|i: usize| i < N ==> call_requires(init, (i,)),
        ensures
            r@.len() == N,
            forall|i: int| 0 <= i < N ==> call_ensures(init, (i as usize,), #[trigger] r@[i]),
    {
        let mut inner: Vec<T> = Vec::new();
        let mut i: usize = 0;
        while i < N
            invariant
                i <= N,
                inner@.len() == i,
                forall|i2: usize| i2 < N ==> call_requires(init, (i2,)),
                forall|j: int| 0 <= j < i ==> call_ensures(init, (j as usize,), #[trigger] inner@[j]),
            decreases N - i,
        {
            inner.push(init(i));
            i = i + 1;
        }
        HeapArrayInit { inner }
    }

    /// Hands the image out for the unverified mover that copies it into
    /// place in the shared region.
    pub fn into_vec(self) -> (v: Vec<T>)
        ensures
            v@ == self@,
    {
        self.inner
    }
}

} // verus!
