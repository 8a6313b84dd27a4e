//! The server binary's settings.
//!
//! Parsed from the command line by the binary; the library holds the
//! bare settings, their default, and what makes them usable.

use vstd::prelude::*;

verus! {

/// Worker threads the server starts when no count is given.
pub const DEFAULT_NUM_THREADS: usize = 4;

/// Server settings.
#[derive(Clone, Copy, Debug)]
pub struct Args {
    /// Bucket count of the hash table.
    pub size: usize,
    /// Worker threads executing requests in parallel.
    pub num_threads: usize,
}

impl Args {
    /// Settings usable by the server: an empty table cannot hash, and a
    /// server without workers serves nothing.
    pub open spec fn valid(self) -> bool {
        self.size >= 1 && self.num_threads >= 1
    }

    /// Settings for a table size, with the default worker count.
    pub fn new(size: usize) -> (r: Args)
        ensures
            r.size == size,
            r.num_threads == DEFAULT_NUM_THREADS,
    {
        Args { size, num_threads: DEFAULT_NUM_THREADS }
    }

    /// Whether the settings are usable.
    pub fn validate(&self) -> (r: bool)
        ensures
            r == self.valid(),
    {
        self.size >= 1 && self.num_threads >= 1
    }
}

} // verus!
