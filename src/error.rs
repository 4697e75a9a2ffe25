use vstd::prelude::*;

verus! {

/// Errors surfaced by the runtime core.
#[derive(Debug, Clone, Copy, PartialEq, Eq, Structural)]
pub enum Error {
    /// A negative completion code, carrying the positive OS error number.
    Os(i32),
    /// Arguments rejected before submission (an offset plus a length overflows).
    InvalidInput,
    /// A read-exact loop read zero bytes with work remaining.
    UnexpectedEof,
    /// A write-all loop made no progress.
    WriteZero,
    /// No slot was available for a new operation.
    QueueFull,
    /// The fixed-buffer collection's lock was poisoned.
    RegistryPoisoned,
}

/// What a raw completion code means: a non-negative value, or an OS error.
pub open spec fn spec_from_code(res: i32) -> Result<u32, Error> {
    if res >= 0 {
        Ok(res as u32)
    } else {
        Err(Error::Os((-res) as i32))
    }
}

impl Error {
    /// Maps a completion's signed result code: negative codes become `Os`
    /// errors, the rest are operation-specific values.
    pub fn from_code(res: i32) -> (r: Result<u32, Error>)
        requires
            res > i32::MIN,
        ensures
            r == spec_from_code(res),
    {
        if res >= 0 {
            Ok(res as u32)
        } else {
            Err(Error::Os(-res))
        }
    }
}

} // verus!
