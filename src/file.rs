use vstd::prelude::*;
use crate::error::Error;
use crate::shared_fd::{FdModel, FdPhase, SharedFd};

verus! {

/// An open file, addressed positionally: it keeps no cursor, every operation
/// names its offset.
pub struct File {
    fd: SharedFd,
}

impl View for File {
    type V = FdModel;

    closed spec fn view(&self) -> FdModel {
        self.fd@
    }
}

impl File {
    /// The shared descriptor the file holds.
    pub closed spec fn shared(&self) -> SharedFd {
        self.fd
    }

    /// Wraps a shared descriptor.
    pub fn from_shared_fd(fd: SharedFd) -> (r: File)
        ensures
            r.shared() == fd,
            r@ == fd@,
    {
        File { fd }
    }

    /// Takes ownership of a raw descriptor, as its only holder.
    pub fn from_descriptor(fd: i32) -> (r: File)
        ensures
            r@ == (FdModel { fd, strong: 1, phase: FdPhase::Open }),
            r.shared().wf(),
    {
        File::from_shared_fd(SharedFd::new(fd))
    }

    /// The raw descriptor of the file.
    pub fn as_raw_fd(&self) -> (r: i32)
        ensures
            r == self@.fd,
    {
        self.fd.raw_fd()
    }

    /// The shared descriptor, to clone into an operation or to release.
    pub fn shared_fd(&mut self) -> (r: &mut SharedFd)
        ensures
            *r == old(self).shared(),
            final(self).shared() == *final(r),
    {
        &mut self.fd
    }

    /// Gives the shared descriptor back, for closing.
    pub fn into_shared_fd(self) -> (r: SharedFd)
        ensures
            r@ == self@,
    {
        self.fd
    }
}

/// Which exact loop is run: a read that must fill the buffer, or a write
/// that must drain it.
#[derive(Debug, Clone, Copy, PartialEq, Eq, Structural)]
pub enum ExactKind {
    ReadExact,
    WriteAll,
}

/// The error that ends a loop when an operation makes no progress.
pub open spec fn no_progress_error(kind: ExactKind) -> Error {
    match kind {
        ExactKind::ReadExact => Error::UnexpectedEof,
        ExactKind::WriteAll => Error::WriteZero,
    }
}

/// The abstract state of an exact loop: it started at file offset `start`,
/// must move `len` bytes, and has moved `done`.
pub struct ExactView {
    pub kind: ExactKind,
    pub start: nat,
    pub done: nat,
    pub len: nat,
}

/// The decisions of a positional read-exact or write-all loop. Each step the
/// caller submits one read (or write) of the bytes `done..len` of its buffer at
/// file offset `start + done`, and hands the outcome back.
pub struct ExactLoop {
    kind: ExactKind,
    start: u64,
    done: usize,
    len: usize,
}

impl View for ExactLoop {
    type V = ExactView;

    closed spec fn view(&self) -> ExactView {
        ExactView {
            kind: self.kind,
            start: self.start as nat,
            done: self.done as nat,
            len: self.len as nat,
        }
    }
}

impl ExactLoop {
    /// Well-formed: progress never passes the length, and the last offset fits.
    pub closed spec fn wf(&self) -> bool {
        &&& self.done <= self.len
        &&& self.start + self.len <= u64::MAX
    }

    /// Starts a loop over `len` bytes at file offset `pos`. Fails with
    /// `InvalidInput` exactly when `pos + len` does not fit in 64 bits.
    pub fn new(kind: ExactKind, pos: u64, len: usize) -> (r: Result<ExactLoop, Error>)
        ensures
            pos + len <= u64::MAX <==> r is Ok,
            r is Err ==> r == Err::<ExactLoop, Error>(Error::InvalidInput),
            r matches Ok(l) ==> l.wf() && l@ == (ExactView {
                kind,
                start: pos as nat,
                done: 0,
                len: len as nat,
            }),
    {
        let total = len as u64;
        if pos.checked_add(total).is_none() {
            Err(Error::InvalidInput)
        } else {
            Ok(ExactLoop { kind, start: pos, done: 0, len })
        }
    }

    /// The next submission: its file offset and the offset in the buffer where
    /// it begins, or `None` when every byte has been moved.
    pub fn next(&self) -> (r: Option<(u64, usize)>)
        requires
            self.wf(),
        ensures
            self@.done == self@.len <==> r is None,
            r matches Some((pos, begin)) ==> pos == self@.start + self@.done && begin
                == self@.done,
    {
        if self.done == self.len {
            None
        } else {
            Some((self.start + self.done as u64, self.done))
        }
    }

    /// Bytes still to move.
    pub fn remaining(&self) -> (r: usize)
        requires
            self.wf(),
        ensures
            r == self@.len - self@.done,
    {
        self.len - self.done
    }

    /// Hands back the outcome of the last submission. An error ends the loop
    /// with that error; zero bytes end it with the loop's no-progress error;
    /// otherwise the bytes count as moved, and the loop ends with success once
    /// all are.
    pub fn advance(&mut self, res: Result<usize, Error>) -> (r: Option<Result<(), Error>>)
        requires
            old(self).wf(),
            old(self)@.done < old(self)@.len,
            res matches Ok(n) ==> n <= old(self)@.len - old(self)@.done,
        ensures
            final(self).wf(),
            final(self)@.kind == old(self)@.kind,
            final(self)@.start == old(self)@.start,
            final(self)@.len == old(self)@.len,
            match res {
                Err(e) => r == Some(Err::<(), Error>(e)) && final(self)@ == old(self)@,
                Ok(n) => if n == 0 {
                    r == Some(Err::<(), Error>(no_progress_error(old(self)@.kind)))
                        && final(self)@ == old(self)@
                } else {
                    &&& final(self)@.done == old(self)@.done + n
                    &&& (final(self)@.done == final(self)@.len) == (r == Some(
                        Ok::<(), Error>(()),
                    ))
                    &&& (final(self)@.done < final(self)@.len) == (r is None)
                },
            },
    {
        match res {
            Err(e) => Some(Err(e)),
            Ok(n) => {
                if n == 0 {
                    match self.kind {
                        ExactKind::ReadExact => Some(Err(Error::UnexpectedEof)),
                        ExactKind::WriteAll => Some(Err(Error::WriteZero)),
                    }
                } else {
                    self.done = self.done + n;
                    if self.done == self.len {
                        Some(Ok(()))
                    } else {
                        None
                    }
                }
            },
        }
    }
}

} // verus!
