use vstd::prelude::*;

verus! {

/// Where a shared descriptor is in its life.
#[derive(Debug, Clone, Copy, PartialEq, Eq, Structural)]
pub enum FdPhase {
    /// Held by at least one owner; the descriptor is open.
    Open,
    /// The last owner let go; a close was submitted and is awaited.
    Closing,
    /// The kernel acknowledged the close.
    Closed,
}

/// The abstract state of a shared descriptor.
pub struct FdModel {
    pub fd: i32,
    pub strong: nat,
    pub phase: FdPhase,
}

/// The reference-counted lifetime of one raw descriptor. Every holder, the
/// file itself and each in-flight operation on it, counts as one strong
/// reference; the last release asks for an asynchronous close, and the close
/// completion is reported exactly once.
pub struct SharedFd {
    fd: i32,
    strong: u64,
    phase: FdPhase,
}

/// The state after a close completion is delivered, and whether it resolved
/// the close: only a pending close resolves, and only once.
pub open spec fn spec_close_completed(m: FdModel) -> (FdModel, bool) {
    if m.phase == FdPhase::Closing {
        (FdModel { phase: FdPhase::Closed, ..m }, true)
    } else {
        (m, false)
    }
}

impl View for SharedFd {
    type V = FdModel;

    closed spec fn view(&self) -> FdModel {
        FdModel { fd: self.fd, strong: self.strong as nat, phase: self.phase }
    }
}

impl SharedFd {
    /// Well-formed: the descriptor is open exactly while someone holds it.
    pub open spec fn wf(&self) -> bool {
        (self@.strong > 0) == (self@.phase == FdPhase::Open)
    }

    /// Takes ownership of `fd`, with one strong reference.
    pub fn new(fd: i32) -> (r: SharedFd)
        ensures
            r@ == (FdModel { fd, strong: 1, phase: FdPhase::Open }),
            r.wf(),
    {
        SharedFd { fd, strong: 1, phase: FdPhase::Open }
    }

    /// The raw descriptor.
    pub fn raw_fd(&self) -> (r: i32)
        ensures
            r == self@.fd,
    {
        self.fd
    }

    /// Number of strong references.
    pub fn strong_count(&self) -> (r: u64)
        ensures
            r == self@.strong,
    {
        self.strong
    }

    /// The phase of the descriptor's life.
    pub fn phase(&self) -> (r: FdPhase)
        ensures
            r == self@.phase,
    {
        self.phase
    }

    /// A holder clones its reference, for instance into an operation that is
    /// about to be submitted.
    pub fn acquire(&mut self)
        requires
            old(self).wf(),
            old(self)@.strong > 0,
            old(self)@.strong < u64::MAX,
        ensures
            final(self).wf(),
            final(self)@ == (FdModel { strong: old(self)@.strong + 1, ..old(self)@ }),
    {
        self.strong = self.strong + 1;
    }

    /// A holder drops its reference. The last one moves the descriptor to
    /// `Closing` and returns the descriptor whose close must be submitted.
    pub fn release(&mut self) -> (r: Option<i32>)
        requires
            old(self).wf(),
            old(self)@.strong > 0,
        ensures
            final(self).wf(),
            final(self)@.fd == old(self)@.fd,
            final(self)@.strong == old(self)@.strong - 1,
            old(self)@.strong == 1 ==> final(self)@.phase == FdPhase::Closing && r == Some(
                old(self)@.fd,
            ),
            old(self)@.strong > 1 ==> final(self)@.phase == FdPhase::Open && r is None,
    {
        self.strong = self.strong - 1;
        if self.strong == 0 {
            self.phase = FdPhase::Closing;
            Some(self.fd)
        } else {
            None
        }
    }

    /// Delivers the close completion. Returns `true` when this resolved the
    /// pending close; any later delivery is a no-op that returns `false`.
    pub fn close_completed(&mut self) -> (r: bool)
        requires
            old(self).wf(),
        ensures
            final(self).wf(),
            (final(self)@, r) == spec_close_completed(old(self)@),
    {
        if self.phase == FdPhase::Closing {
            self.phase = FdPhase::Closed;
            true
        } else {
            false
        }
    }
}

/// While any holder keeps a strong reference, the descriptor is open: no close
/// has been asked for yet.
pub proof fn lemma_held_descriptor_is_open(s: SharedFd)
    requires
        s.wf(),
        s@.strong > 0,
    ensures
        s@.phase == FdPhase::Open,
{
}

/// A close resolves exactly once: delivering the completion a second time
/// leaves the state as it is and reports nothing.
pub proof fn lemma_close_resolves_once(m: FdModel)
    ensures
        spec_close_completed(spec_close_completed(m).0).0 == spec_close_completed(m).0,
        spec_close_completed(m).1 ==> !spec_close_completed(spec_close_completed(m).0).1,
        m.phase == FdPhase::Closing ==> spec_close_completed(m).1,
{
}

} // verus!
