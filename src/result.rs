use vstd::prelude::*;
use crate::error::Error;

verus! {

/// The error of a buffer-owning operation: the buffer comes back beside the
/// error, so that it is never lost on failure.
pub struct BufError<B>(pub Error, pub B);

/// The outcome of a buffer-owning operation: the buffer is returned on success
/// and on failure alike.
pub type BufResult<T, B> = Result<(T, B), BufError<B>>;

/// The buffer that a buffer-owning outcome hands back, whichever arm it is.
pub open spec fn returned_buf<T, B>(r: BufResult<T, B>) -> B {
    match r {
        Ok((_, b)) => b,
        Err(BufError(_, b)) => b,
    }
}

/// Utilities over the `(result, returned-buffer)` convention.
pub trait ResultExt: Sized {
    type Output;
    type Buf;

    /// The buffer that the outcome carries, in either arm.
    spec fn carried_buf(&self) -> Self::Buf;

    /// Splits the outcome into a plain result and the returned buffer.
    fn lift_buf(self) -> (r: (Result<Self::Output, Error>, Self::Buf))
        ensures
            r.1 == self.carried_buf(),
    ;

    /// Transforms the returned buffer, whatever the outcome.
    fn map_buf<C, F>(self, f: F) -> (r: Result<(Self::Output, C), BufError<C>>)
        where
            F: FnOnce(Self::Buf) -> C,
        requires
            f.requires((self.carried_buf(),)),
    ;
}

impl<T, B> ResultExt for BufResult<T, B> {
    type Output = T;
    type Buf = B;

    open spec fn carried_buf(&self) -> B {
        returned_buf(*self)
    }

    fn lift_buf(self) -> (r: (Result<T, Error>, B))
        ensures
            r.1 == returned_buf(self),
            match self {
                Ok((out, _)) => r.0 == Ok::<T, Error>(out),
                Err(BufError(e, _)) => r.0 == Err::<T, Error>(e),
            },
    {
        match self {
            Ok((out, buf)) => (Ok(out), buf),
            Err(BufError(e, buf)) => (Err(e), buf),
        }
    }

    fn map_buf<C, F>(self, f: F) -> (r: Result<(T, C), BufError<C>>)
        where
            F: FnOnce(B) -> C,
        ensures
            match (self, r) {
                (Ok((out, b)), Ok((out2, c))) => out2 == out && f.ensures((b,), c),
                (Err(BufError(e, b)), Err(BufError(e2, c))) => e2 == e && f.ensures((b,), c),
                _ => false,
            },
    {
        match self {
            Ok((out, buf)) => Ok((out, f(buf))),
            Err(BufError(e, buf)) => Err(BufError(e, f(buf))),
        }
    }
}

} // verus!
