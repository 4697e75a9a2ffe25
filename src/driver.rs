use vstd::prelude::*;
use crate::error::Error;
use crate::slab::{Cqe, Delivery, PollOutcome, Slab, SlabView, inserted, slab_full, spec_complete, spec_detach, spec_poll};
use crate::token::{Token, spec_user_data, spec_token_of};

verus! {

/// A submission-queue entry built by an opcode; opaque here, carried through.
#[verifier::external_type_specification]
#[verifier::external_body]
pub struct ExSqe(io_uring::squeue::Entry);

/// Relies on io_uring::squeue::Entry::user_data: it stores the given word as
/// the entry's user data, which the kernel echoes in the completion.
pub assume_specification[ io_uring::squeue::Entry::user_data ](
    e: io_uring::squeue::Entry,
    user_data: u64,
) -> io_uring::squeue::Entry;

/// The abstract driver: the slab of in-flight operations, the submissions not
/// yet handed to the kernel in order with their user-data words, and how many
/// of those may wait.
pub struct DriverView<W, R> {
    pub slab: SlabView<W, R>,
    pub backlog: Seq<(u64, io_uring::squeue::Entry)>,
    pub backlog_capacity: nat,
}

/// The submission side of a ring: reserves a slot for each operation, tags its
/// entry with the slot's token, and queues it until a flush hands queued
/// entries to the kernel in submission order. Completions go to the slab.
pub struct Driver<W, R> {
    slab: Slab<W, R>,
    backlog: Vec<(u64, io_uring::squeue::Entry)>,
    backlog_capacity: usize,
}

impl<W, R> View for Driver<W, R> {
    type V = DriverView<W, R>;

    closed spec fn view(&self) -> DriverView<W, R> {
        DriverView {
            slab: self.slab@,
            backlog: self.backlog@,
            backlog_capacity: self.backlog_capacity as nat,
        }
    }
}

impl<W, R> Driver<W, R> {
    pub closed spec fn wf(&self) -> bool {
        &&& self.slab.wf()
        &&& self.backlog@.len() <= self.backlog_capacity
    }

    /// A driver with room for `slots` operations in flight and `backlog`
    /// queued submissions.
    pub fn new(slots: u32, backlog: usize) -> (r: Driver<W, R>)
        ensures
            r.wf(),
            r@.slab.slots.len() == 0,
            r@.slab.capacity == slots,
            r@.backlog.len() == 0,
            r@.backlog_capacity == backlog,
    {
        let r = Driver { slab: Slab::new(slots), backlog: Vec::new(), backlog_capacity: backlog };
        assert(r@.backlog.len() == 0);
        r
    }

    /// Number of queued submissions.
    pub fn backlog_len(&self) -> (r: usize)
        ensures
            r == self@.backlog.len(),
    {
        self.backlog.len()
    }

    /// Submits an entry: reserves a slot, tags the entry with the slot's
    /// user-data word and queues it. Fails with `QueueFull`, handing the entry
    /// back untouched and changing nothing, when the backlog is full (flush,
    /// then retry) or no slot is free.
    pub fn submit(&mut self, entry: io_uring::squeue::Entry) -> (r: Result<
        Token,
        (Error, io_uring::squeue::Entry),
    >)
        requires
            old(self).wf(),
        ensures
            final(self).wf(),
            final(self)@.backlog_capacity == old(self)@.backlog_capacity,
            r matches Err((e, back)) ==> e == Error::QueueFull && back == entry && final(self)@
                == old(self)@,
            (old(self)@.backlog.len() == old(self)@.backlog_capacity || slab_full(old(self)@.slab))
                <==> r is Err,
            r matches Ok(t) ==> {
                &&& inserted(old(self)@.slab, final(self)@.slab, t)
                &&& final(self)@.backlog == old(self)@.backlog.push((spec_user_data(t), final(self)@.backlog.last().1))
                &&& spec_token_of(final(self)@.backlog.last().0) == t
            },
    {
        if self.backlog.len() >= self.backlog_capacity {
            return Err((Error::QueueFull, entry));
        }
        match self.slab.insert() {
            Err(e) => Err((e, entry)),
            Ok(t) => {
                let u = t.user_data();
                proof {
                    crate::token::lemma_user_data_round_trip(t);
                }
                let tagged = entry.user_data(u);
                self.backlog.push((u, tagged));
                Ok(t)
            },
        }
    }

    /// Hands the oldest queued submissions to the kernel: at most `room` of
    /// them, in the order they were submitted.
    pub fn flush(&mut self, room: usize) -> (r: Vec<io_uring::squeue::Entry>)
        requires
            old(self).wf(),
        ensures
            final(self).wf(),
            final(self)@.slab == old(self)@.slab,
            final(self)@.backlog_capacity == old(self)@.backlog_capacity,
            ({
                let k = if room < old(self)@.backlog.len() {
                    room as int
                } else {
                    old(self)@.backlog.len() as int
                };
                &&& r@.len() == k
                &&& forall|j: int| 0 <= j < k ==> #[trigger] r@[j] == old(self)@.backlog[j].1
                &&& final(self)@.backlog == old(self)@.backlog.subrange(k, old(self)@.backlog.len() as int)
            }),
    {
        let mut out: Vec<io_uring::squeue::Entry> = Vec::new();
        let ghost orig = self.backlog@;
        while out.len() < room && self.backlog.len() > 0
            invariant
                self.wf(),
                self.slab == old(self).slab,
                self.backlog_capacity == old(self).backlog_capacity,
                orig == old(self)@.backlog,
                out@.len() <= room,
                out@.len() + self.backlog@.len() == orig.len(),
                self.backlog@ == orig.subrange(out@.len() as int, orig.len() as int),
                forall|j: int| 0 <= j < out@.len() ==> #[trigger] out@[j] == orig[j].1,
            decreases self.backlog@.len(),
        {
            let (_, e) = self.backlog.remove(0);
            out.push(e);
            proof {
                assert(self.backlog@ =~= orig.subrange(out@.len() as int, orig.len() as int));
            }
        }
        out
    }

    /// Delivers a completion read from the ring, by its user-data word.
    pub fn complete(&mut self, user_data: u64, c: Cqe) -> (r: Delivery<W, R>)
        requires
            old(self).wf(),
        ensures
            final(self).wf(),
            final(self)@.backlog == old(self)@.backlog,
            final(self)@.backlog_capacity == old(self)@.backlog_capacity,
            (final(self)@.slab, r) == spec_complete(old(self)@.slab, spec_token_of(user_data), c),
    {
        self.slab.complete(user_data, c)
    }

    /// Polls the operation named by `t` for the task whose waker is `w`.
    pub fn poll(&mut self, t: Token, w: W) -> (r: PollOutcome)
        requires
            old(self).wf(),
        ensures
            final(self).wf(),
            final(self)@.backlog == old(self)@.backlog,
            final(self)@.backlog_capacity == old(self)@.backlog_capacity,
            (final(self)@.slab, r) == spec_poll(old(self)@.slab, t, w),
    {
        self.slab.poll(t, w)
    }

    /// Drops the operation named by `t`, which owns `res`.
    pub fn detach(&mut self, t: Token, res: R) -> (r: Option<R>)
        requires
            old(self).wf(),
        ensures
            final(self).wf(),
            final(self)@.backlog == old(self)@.backlog,
            final(self)@.backlog_capacity == old(self)@.backlog_capacity,
            (final(self)@.slab, r) == spec_detach(old(self)@.slab, t, res),
    {
        self.slab.detach(t, res)
    }
}

} // verus!
