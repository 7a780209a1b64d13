//! The error reported when rewriting a file's modification time fails.
//!
//! The rewrite itself is a system call made outside this crate; this type
//! carries its failure, the non-zero return code, back to the caller.

use vstd::prelude::*;

verus! {

/// A failed modification-time update, with the system call's return code.
#[derive(Clone, Copy, Debug)]
pub struct ModTimeUpdateError {
    pub rc: isize,
}

impl ModTimeUpdateError {
    pub fn new(rc: isize) -> (r: ModTimeUpdateError)
        ensures
            r.rc == rc,
    {
        ModTimeUpdateError { rc }
    }

    /// The system call's return code.
    pub fn code(&self) -> (r: isize)
        ensures
            r == self.rc,
    {
        self.rc
    }
}

} // verus!
