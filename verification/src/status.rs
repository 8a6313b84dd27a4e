//! Outcome checking for raw system-call return codes.
//!
//! The process-shared primitives call into POSIX through thin unverified
//! shims; each such call reports failure as a non-zero integer code. The
//! `CheckOk` trait turns such a code into a `Result` carrying the failed
//! operation's name, so callers can treat every primitive failure
//! uniformly as fatal.

use vstd::prelude::*;

verus! {

/// A system primitive operation returned a non-zero code.
#[derive(Debug)]
pub struct PrimitiveFailure {
    /// Name of the operation that failed.
    pub op: String,
    /// The non-zero code it returned.
    pub code: i32,
}

/// Turns a raw operation outcome into a `Result`, recording the
/// operation's name on failure.
pub trait CheckOk<R>: Sized {
    /// The value this outcome carries when it is a success.
    spec fn ok_value(self) -> R;

    /// True when the outcome is a success.
    spec fn is_success(self) -> bool;

    /// The code reported on failure.
    spec fn fail_code(self) -> i32;

    fn r(self, op: &str) -> (res: Result<R, PrimitiveFailure>)
        ensures
            self.is_success() ==> (res matches Ok(v) && v == self.ok_value()),
            !self.is_success() ==> (res matches Err(e) && e.code == self.fail_code() && e.op@
                == op@),
    ;
}

impl CheckOk<()> for i32 {
    open spec fn ok_value(self) -> () {
        ()
    }

    open spec fn is_success(self) -> bool {
        self == 0
    }

    open spec fn fail_code(self) -> i32 {
        self
    }

    fn r(self, op: &str) -> (res: Result<(), PrimitiveFailure>) {
        if self != 0 {
            Err(PrimitiveFailure { op: op.to_owned(), code: self })
        } else {
            Ok(())
        }
    }
}

impl<T> CheckOk<T> for Result<T, i32> {
    open spec fn ok_value(self) -> T {
        self->Ok_0
    }

    open spec fn is_success(self) -> bool {
        self matches Ok(_)
    }

    open spec fn fail_code(self) -> i32 {
        self->Err_0
    }

    fn r(self, op: &str) -> (res: Result<T, PrimitiveFailure>) {
        match self {
            Ok(t) => Ok(t),
            Err(code) => Err(PrimitiveFailure { op: op.to_owned(), code }),
        }
    }
}

} // verus!
