//! The client binary's settings.
//!
//! Parsed from the command line by the binary; the library holds the
//! bare settings and their defaults, which the workload's contracts
//! speak of.

use vstd::prelude::*;

verus! {

/// How many measurement passes the client runs when no count is given.
pub const DEFAULT_OUTER_ITERATIONS: usize = 1000;

/// How many requests each pass issues when no count is given.
pub const DEFAULT_INNER_ITERATIONS: usize = 100;

/// Client settings.
#[derive(Clone, Copy, Debug)]
pub struct Args {
    /// Measurement passes to run; zero means run until interrupted.
    pub outer_iterations: usize,
    /// Requests issued per pass.
    pub inner_iterations: usize,
    /// Seed for the key names; drawn at random when absent.
    pub seed: Option<u32>,
}

impl Default for Args {
    /// The defaults the command line fills in for omitted settings.
    fn default() -> (r: Args)
        ensures
            r.outer_iterations == DEFAULT_OUTER_ITERATIONS,
            r.inner_iterations == DEFAULT_INNER_ITERATIONS,
            r.seed is None,
    {
        Args {
            outer_iterations: DEFAULT_OUTER_ITERATIONS,
            inner_iterations: DEFAULT_INNER_ITERATIONS,
            seed: None,
        }
    }
}

} // verus!
