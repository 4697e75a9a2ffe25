use vstd::prelude::*;
use crate::error::Error;
use crate::token::{Token, spec_token_of};

verus! {

/// A completion as the kernel reports it: a signed result code and flags.
#[derive(Debug, Clone, Copy, PartialEq, Eq, Structural)]
pub struct Cqe {
    pub result: i32,
    pub flags: u32,
}

/// The continuation flag: more completions follow for the same submission.
pub open spec fn has_more(flags: u32) -> bool {
    flags & 2u32 != 0u32
}

/// Relies on io_uring::cqueue::more: it tests the IORING_CQE_F_MORE bit,
/// whose value is 2, of a completion's flags.
pub assume_specification[ io_uring::cqueue::more ](flags: u32) -> (r: bool)
    ensures
        r == has_more(flags),
;

/// The state of one slot of the slab.
pub enum Lifecycle<W, R> {
    /// Free for a new operation.
    Vacant,
    /// Submitted; no completion is waiting to be taken. Holds the waker of
    /// the task that last polled the operation.
    Waiting(Option<W>),
    /// Completions delivered and not yet taken, oldest first; the last one
    /// without the continuation flag ends the operation.
    Ready(Vec<Cqe>),
    /// The operation was dropped before it finished: the slot keeps its owned
    /// resources until the kernel's final completion.
    Ignored(R),
}

/// A slot as it is seen.
pub enum SlotView<W, R> {
    Vacant,
    Waiting(Option<W>),
    Ready(Seq<Cqe>),
    Ignored(R),
}

impl<W, R> Lifecycle<W, R> {
    pub open spec fn view(&self) -> SlotView<W, R> {
        match self {
            Lifecycle::Vacant => SlotView::Vacant,
            Lifecycle::Waiting(w) => SlotView::Waiting(*w),
            Lifecycle::Ready(q) => SlotView::Ready(q@),
            Lifecycle::Ignored(r) => SlotView::Ignored(*r),
        }
    }
}

/// The kernel still refers to the operation in this slot: it was submitted
/// and its final completion has not arrived.
pub open spec fn kernel_holds<W, R>(s: SlotView<W, R>) -> bool {
    match s {
        SlotView::Vacant => false,
        SlotView::Waiting(_) => true,
        SlotView::Ready(q) => has_more(q.last().flags),
        SlotView::Ignored(_) => true,
    }
}

/// The abstract slab: its slots, the generation of each, and its capacity.
pub struct SlabView<W, R> {
    pub slots: Seq<SlotView<W, R>>,
    pub gens: Seq<u32>,
    pub capacity: nat,
}

/// `t` names an occupied slot of `v` in its current generation.
pub open spec fn names_live<W, R>(v: SlabView<W, R>, t: Token) -> bool {
    &&& (t.index as int) < v.slots.len()
    &&& v.gens[t.index as int] == t.generation
    &&& !(v.slots[t.index as int] is Vacant)
}

/// The generation a reused slot gets.
pub open spec fn next_gen(g: u32) -> u32 {
    if g == u32::MAX {
        0
    } else {
        (g + 1) as u32
    }
}

/// `i` is the lowest vacant slot.
pub open spec fn first_vacant<W, R>(v: SlabView<W, R>, i: int) -> bool {
    &&& 0 <= i < v.slots.len()
    &&& v.slots[i] is Vacant
    &&& forall|j: int| 0 <= j < i ==> !(#[trigger] v.slots[j] is Vacant)
}

/// Every slot is occupied and no new one may be added.
pub open spec fn slab_full<W, R>(v: SlabView<W, R>) -> bool {
    &&& forall|j: int| 0 <= j < v.slots.len() ==> !(#[trigger] v.slots[j] is Vacant)
    &&& v.slots.len() == v.capacity
}

/// `new` is `old` after a new operation got token `t`: the lowest vacant
/// slot with its generation advanced, or else a new slot at the end.
pub open spec fn inserted<W, R>(old: SlabView<W, R>, new: SlabView<W, R>, t: Token) -> bool {
    &&& new.capacity == old.capacity
    &&& names_live(new, t)
    &&& new.slots[t.index as int] == SlotView::<W, R>::Waiting(None)
    &&& if first_vacant(old, t.index as int) {
        &&& t.generation == next_gen(old.gens[t.index as int])
        &&& new.slots == old.slots.update(t.index as int, SlotView::Waiting(None))
        &&& new.gens == old.gens.update(t.index as int, t.generation)
    } else {
        &&& forall|j: int| 0 <= j < old.slots.len() ==> !(#[trigger] old.slots[j] is Vacant)
        &&& t.index == old.slots.len()
        &&& t.generation == 0
        &&& new.slots == old.slots.push(SlotView::Waiting(None))
        &&& new.gens == old.gens.push(0)
    }
}

/// What a completion asks of the driver.
pub enum Delivery<W, R> {
    /// Wake this waker, if the operation had one.
    Wake(Option<W>),
    /// The dropped operation is over: drop its resources now.
    Release(R),
    /// The word names no live operation; nothing changed.
    Stale,
}

/// The outcome of polling an operation.
pub enum PollOutcome {
    /// No completion yet; the waker is stored.
    Pending,
    /// The oldest completion not yet taken.
    Ready(Cqe),
    /// The token names no live operation.
    Invalid,
}

/// The arena of in-flight operations, keyed by tokens. A slot is reused only
/// after the kernel's final completion for it was delivered.
pub struct Slab<W, R> {
    slots: Vec<Lifecycle<W, R>>,
    gens: Vec<u32>,
    capacity: u32,
}

impl<W, R> View for Slab<W, R> {
    type V = SlabView<W, R>;

    closed spec fn view(&self) -> SlabView<W, R> {
        SlabView {
            slots: self.slots@.map_values(|s: Lifecycle<W, R>| s.view()),
            gens: self.gens@,
            capacity: self.capacity as nat,
        }
    }
}

/// The slab after slot `i` becomes `s`.
pub open spec fn with_slot<W, R>(v: SlabView<W, R>, i: int, s: SlotView<W, R>) -> SlabView<W, R> {
    SlabView { slots: v.slots.update(i, s), ..v }
}

/// A completion for the operation named by `t`, and what the driver must do.
pub open spec fn spec_complete<W, R>(v: SlabView<W, R>, t: Token, c: Cqe) -> (
    SlabView<W, R>,
    Delivery<W, R>,
) {
    let i = t.index as int;
    if !names_live(v, t) {
        (v, Delivery::Stale)
    } else {
        match v.slots[i] {
            SlotView::Waiting(w) => (with_slot(v, i, SlotView::Ready(seq![c])), Delivery::Wake(w)),
            SlotView::Ready(q) => (with_slot(v, i, SlotView::Ready(q.push(c))), Delivery::Wake(None)),
            SlotView::Ignored(r) => if has_more(c.flags) {
                (v, Delivery::Wake(None))
            } else {
                (with_slot(v, i, SlotView::Vacant), Delivery::Release(r))
            },
            SlotView::Vacant => (v, Delivery::Stale),
        }
    }
}

/// Polling the operation named by `t` with waker `w`.
pub open spec fn spec_poll<W, R>(v: SlabView<W, R>, t: Token, w: W) -> (SlabView<W, R>, PollOutcome) {
    let i = t.index as int;
    if !names_live(v, t) {
        (v, PollOutcome::Invalid)
    } else {
        match v.slots[i] {
            SlotView::Waiting(_) => (with_slot(v, i, SlotView::Waiting(Some(w))), PollOutcome::Pending),
            SlotView::Ready(q) => if q.len() > 1 {
                (with_slot(v, i, SlotView::Ready(q.drop_first())), PollOutcome::Ready(q[0]))
            } else if has_more(q[0].flags) {
                (with_slot(v, i, SlotView::Waiting(Some(w))), PollOutcome::Ready(q[0]))
            } else {
                (with_slot(v, i, SlotView::Vacant), PollOutcome::Ready(q[0]))
            },
            _ => (v, PollOutcome::Invalid),
        }
    }
}

/// Dropping the operation named by `t`, which owns `res`: while the kernel
/// still holds it, the slot keeps `res`; otherwise `res` comes straight back.
pub open spec fn spec_detach<W, R>(v: SlabView<W, R>, t: Token, res: R) -> (SlabView<W, R>, Option<R>) {
    let i = t.index as int;
    if !names_live(v, t) || v.slots[i] is Ignored {
        (v, Some(res))
    } else if kernel_holds(v.slots[i]) {
        (with_slot(v, i, SlotView::Ignored(res)), None)
    } else {
        (with_slot(v, i, SlotView::Vacant), Some(res))
    }
}

proof fn lemma_with_slot_twice<W, R>(v: SlabView<W, R>, i: int)
    requires
        0 <= i < v.slots.len(),
    ensures
        forall|a: SlotView<W, R>, b: SlotView<W, R>|
            #[trigger] with_slot(with_slot(v, i, a), i, b) == with_slot(v, i, b),
        with_slot(v, i, v.slots[i]) == v,
{
    assert forall|a: SlotView<W, R>, b: SlotView<W, R>|
        #[trigger] with_slot(with_slot(v, i, a), i, b) == with_slot(v, i, b) by {
        assert(with_slot(with_slot(v, i, a), i, b).slots =~= with_slot(v, i, b).slots);
    }
    assert(with_slot(v, i, v.slots[i]).slots =~= v.slots);
}

impl<W, R> Slab<W, R> {
    /// Well-formed: one generation per slot, within capacity, and a ready
    /// slot holds at least one completion.
    pub closed spec fn wf(&self) -> bool {
        &&& self.slots@.len() == self.gens@.len()
        &&& self.slots@.len() <= self.capacity
        &&& forall|i: int|
            0 <= i < self.slots@.len() ==> (#[trigger] self.slots@[i] matches Lifecycle::Ready(q)
                ==> q@.len() > 0)
    }

    /// An empty slab that holds at most `capacity` operations at once.
    pub fn new(capacity: u32) -> (r: Slab<W, R>)
        ensures
            r.wf(),
            r@.slots.len() == 0,
            r@.capacity == capacity,
    {
        let r = Slab { slots: Vec::new(), gens: Vec::new(), capacity };
        assert(r@.slots.len() == 0);
        r
    }

    /// Number of slots in use or vacant.
    pub fn len(&self) -> (r: usize)
        requires
            self.wf(),
        ensures
            r == self@.slots.len(),
    {
        self.slots.len()
    }

    /// Reserves a slot for a newly submitted operation: the lowest vacant
    /// slot, with its generation advanced, or a new one while under capacity.
    /// Fails with `QueueFull` exactly when neither exists.
    pub fn insert(&mut self) -> (r: Result<Token, Error>)
        requires
            old(self).wf(),
        ensures
            final(self).wf(),
            final(self)@.capacity == old(self)@.capacity,
            slab_full(old(self)@) <==> r is Err,
            r is Err ==> r == Err::<Token, Error>(Error::QueueFull) && final(self)@ == old(self)@,
            r matches Ok(t) ==> inserted(old(self)@, final(self)@, t),
    {
        let n = self.slots.len();
        let mut i: usize = 0;
        while i < n
            invariant
                self.wf(),
                self@ == old(self)@,
                n == self@.slots.len(),
                0 <= i <= n,
                forall|j: int| 0 <= j < i ==> !(#[trigger] self@.slots[j] is Vacant),
            decreases n - i,
        {
            if let Lifecycle::Vacant = self.slots[i] {
                assert(first_vacant(old(self)@, i as int));
                let g = self.gens[i];
                let g2 = if g == u32::MAX { 0 } else { g + 1 };
                self.gens.set(i, g2);
                self.slots.set(i, Lifecycle::Waiting(None));
                proof {
                    assert(self@.slots =~= old(self)@.slots.update(i as int, SlotView::Waiting(None)));
                }
                return Ok(Token { index: i as u32, generation: g2 });
            }
            i = i + 1;
        }
        if n >= self.capacity as usize {
            return Err(Error::QueueFull);
        }
        self.slots.push(Lifecycle::Waiting(None));
        self.gens.push(0);
        proof {
            assert(self@.slots =~= old(self)@.slots.push(SlotView::Waiting(None)));
            assert(!first_vacant(old(self)@, n as int));
        }
        Ok(Token { index: n as u32, generation: 0 })
    }

    /// Whether `t` names a live operation.
    pub fn is_live(&self, t: Token) -> (r: bool)
        requires
            self.wf(),
        ensures
            r == names_live(self@, t),
    {
        let i = t.index as usize;
        if i >= self.slots.len() || self.gens[i] != t.generation {
            return false;
        }
        match self.slots[i] {
            Lifecycle::Vacant => false,
            _ => true,
        }
    }

    fn swap_slot(&mut self, i: usize, s: Lifecycle<W, R>) -> (r: Lifecycle<W, R>)
        requires
            old(self).wf(),
            i < old(self)@.slots.len(),
            s matches Lifecycle::Ready(q) ==> q@.len() > 0,
        ensures
            final(self).wf(),
            final(self)@ == with_slot(old(self)@, i as int, s.view()),
            r.view() == old(self)@.slots[i as int],
            r matches Lifecycle::Ready(q) ==> q@.len() > 0,
    {
        let r = self.slots.remove(i);
        self.slots.insert(i, s);
        proof {
            assert(old(self).slots@[i as int] == r);
            assert(self@.slots =~= old(self)@.slots.update(i as int, s.view()));
        }
        r
    }

    /// Delivers a completion whose user-data word is `user_data`, and says
    /// what the driver must do: wake the operation's task, drop a detached
    /// operation's resources once its final completion arrives, or nothing.
    pub fn complete(&mut self, user_data: u64, c: Cqe) -> (r: Delivery<W, R>)
        requires
            old(self).wf(),
        ensures
            final(self).wf(),
            (final(self)@, r) == spec_complete(old(self)@, spec_token_of(user_data), c),
    {
        let t = Token::from_user_data(user_data);
        if !self.is_live(t) {
            return Delivery::Stale;
        }
        let i = t.index as usize;
        proof {
            lemma_with_slot_twice(old(self)@, i as int);
        }
        let slot = self.swap_slot(i, Lifecycle::Vacant);
        match slot {
            Lifecycle::Waiting(w) => {
                let mut q: Vec<Cqe> = Vec::new();
                q.push(c);
                assert(q@ =~= seq![c]);
                self.swap_slot(i, Lifecycle::Ready(q));
                Delivery::Wake(w)
            },
            Lifecycle::Ready(q) => {
                let mut q = q;
                q.push(c);
                self.swap_slot(i, Lifecycle::Ready(q));
                Delivery::Wake(None)
            },
            Lifecycle::Ignored(res) => {
                if io_uring::cqueue::more(c.flags) {
                    self.swap_slot(i, Lifecycle::Ignored(res));
                    Delivery::Wake(None)
                } else {
                    Delivery::Release(res)
                }
            },
            Lifecycle::Vacant => Delivery::Stale,
        }
    }

    /// Polls the operation named by `t` on behalf of the task whose waker is
    /// `w`: hands out the oldest completion not yet taken, or stores the
    /// waker. The slot becomes vacant once the final completion is taken.
    pub fn poll(&mut self, t: Token, w: W) -> (r: PollOutcome)
        requires
            old(self).wf(),
        ensures
            final(self).wf(),
            (final(self)@, r) == spec_poll(old(self)@, t, w),
    {
        if !self.is_live(t) {
            return PollOutcome::Invalid;
        }
        let i = t.index as usize;
        proof {
            lemma_with_slot_twice(old(self)@, i as int);
        }
        let slot = self.swap_slot(i, Lifecycle::Vacant);
        match slot {
            Lifecycle::Waiting(_) => {
                self.swap_slot(i, Lifecycle::Waiting(Some(w)));
                PollOutcome::Pending
            },
            Lifecycle::Ready(q) => {
                let mut q = q;
                let ghost q0 = q@;
                let c = q.remove(0);
                if q.len() > 0 {
                    assert(q@ =~= q0.drop_first());
                    self.swap_slot(i, Lifecycle::Ready(q));
                } else if io_uring::cqueue::more(c.flags) {
                    self.swap_slot(i, Lifecycle::Waiting(Some(w)));
                }
                PollOutcome::Ready(c)
            },
            Lifecycle::Ignored(res) => {
                self.swap_slot(i, Lifecycle::Ignored(res));
                PollOutcome::Invalid
            },
            Lifecycle::Vacant => PollOutcome::Invalid,
        }
    }

    /// Drops the operation named by `t`, which owns `res`. While the kernel
    /// still holds the operation its slot keeps `res` and nothing is handed
    /// back; the driver frees it with the final completion.
    pub fn detach(&mut self, t: Token, res: R) -> (r: Option<R>)
        requires
            old(self).wf(),
        ensures
            final(self).wf(),
            (final(self)@, r) == spec_detach(old(self)@, t, res),
    {
        if !self.is_live(t) {
            return Some(res);
        }
        let i = t.index as usize;
        proof {
            lemma_with_slot_twice(old(self)@, i as int);
        }
        let slot = self.swap_slot(i, Lifecycle::Vacant);
        match slot {
            Lifecycle::Waiting(_) => {
                self.swap_slot(i, Lifecycle::Ignored(res));
                None
            },
            Lifecycle::Ready(q) => {
                let last = q[q.len() - 1];
                if io_uring::cqueue::more(last.flags) {
                    self.swap_slot(i, Lifecycle::Ignored(res));
                    None
                } else {
                    Some(res)
                }
            },
            Lifecycle::Ignored(other) => {
                self.swap_slot(i, Lifecycle::Ignored(other));
                Some(res)
            },
            Lifecycle::Vacant => Some(res),
        }
    }
}

/// Dropping an operation that the kernel still holds frees nothing: its
/// resources move into the slot, completions that announce more leave them
/// there, and they come back only with the final completion, which also frees
/// the slot.
pub proof fn lemma_detach_defers_release<W, R>(v: SlabView<W, R>, t: Token, res: R, c: Cqe)
    requires
        names_live(v, t),
        kernel_holds(v.slots[t.index as int]),
        !(v.slots[t.index as int] is Ignored),
    ensures
        spec_detach(v, t, res).1 is None,
        spec_detach(v, t, res).0.slots[t.index as int] == SlotView::<W, R>::Ignored(res),
        has_more(c.flags) ==> spec_complete(spec_detach(v, t, res).0, t, c).0 == spec_detach(
            v,
            t,
            res,
        ).0,
        has_more(c.flags) ==> !(spec_complete(spec_detach(v, t, res).0, t, c).1 is Release),
        !has_more(c.flags) ==> spec_complete(spec_detach(v, t, res).0, t, c).1 == Delivery::<
            W,
            R,
        >::Release(res),
        !has_more(c.flags) ==> spec_complete(spec_detach(v, t, res).0, t, c).0.slots[t.index as int]
            is Vacant,
{
}

/// A slot whose operation the kernel still holds is never the one a new
/// operation gets.
pub proof fn lemma_held_slot_not_reused<W, R>(v: SlabView<W, R>, i: int)
    requires
        0 <= i < v.slots.len(),
        kernel_holds(v.slots[i]),
    ensures
        !first_vacant(v, i),
{
}

} // verus!
