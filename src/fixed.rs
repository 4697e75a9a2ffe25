use vstd::prelude::*;
use crate::buf::{FixedBuf, FixedBufView, IoBuf};
use crate::error::Error;

verus! {

/// Most buffers a collection can hold: an index is a `u16`.
pub const MAX_BUFFERS: usize = 65536;

/// One entry of a collection as it is seen: free (with its bytes and
/// initialized length) or checked out; its capacity never changes.
pub struct EntryView {
    pub free: bool,
    pub data: Seq<u8>,
    pub init: nat,
    pub total: nat,
}

/// What an entry looks like while a handle has it.
pub open spec fn checked_out_entry(e: EntryView) -> EntryView {
    EntryView { free: false, data: Seq::empty(), init: 0, total: e.total }
}

/// The collection after index `i` is checked out.
pub open spec fn spec_check_out(s: Seq<EntryView>, i: int) -> Seq<EntryView> {
    s.update(i, checked_out_entry(s[i]))
}

/// The handle that checking out entry `e` at index `i` yields.
pub open spec fn handle_of(e: EntryView, i: int) -> FixedBufView {
    FixedBufView { data: e.data, init: e.init, index: i as u16 }
}

/// The collection after handle `b` is checked back in.
pub open spec fn spec_check_in(s: Seq<EntryView>, b: FixedBufView) -> Seq<EntryView> {
    s.update(
        b.index as int,
        EntryView { free: true, data: b.data, init: b.init, total: s[b.index as int].total },
    )
}

/// A handle can go back to `s`: its slot exists, is checked out, and has the
/// handle's capacity.
pub open spec fn accepts(s: Seq<EntryView>, b: FixedBufView) -> bool {
    &&& (b.index as int) < s.len()
    &&& !s[b.index as int].free
    &&& s[b.index as int].total == b.data.len()
}

struct Slot {
    data: Option<Vec<u8>>,
    init: usize,
    total: usize,
}

impl Slot {
    spec fn view(&self) -> EntryView {
        EntryView {
            free: self.data is Some,
            data: match self.data {
                Some(v) => v@,
                None => Seq::empty(),
            },
            init: self.init as nat,
            total: self.total as nat,
        }
    }

    spec fn wf(&self) -> bool {
        &&& self.data matches Some(v) ==> v@.len() == self.total
        &&& self.init <= self.total
    }
}

/// The entries shared by both kinds of collection.
struct Slots {
    items: Vec<Slot>,
}

impl Slots {
    spec fn view(&self) -> Seq<EntryView> {
        self.items@.map_values(|e: Slot| e.view())
    }

    spec fn wf(&self) -> bool {
        &&& self.items@.len() <= MAX_BUFFERS
        &&& forall|i: int| 0 <= i < self.items@.len() ==> #[trigger] self.items@[i].wf()
    }

    fn from_vecs(bufs: Vec<Vec<u8>>) -> (r: Result<Slots, Error>)
        ensures
            bufs@.len() > MAX_BUFFERS <==> r is Err,
            r matches Err(e) ==> e == Error::InvalidInput,
            r matches Ok(es) ==> es.wf() && es.view().len() == bufs@.len() && forall|i: int|
                0 <= i < bufs@.len() ==> #[trigger] es.view()[i] == (EntryView {
                    free: true,
                    data: bufs@[i]@,
                    init: 0,
                    total: bufs@[i]@.len(),
                }),
    {
        if bufs.len() > MAX_BUFFERS {
            return Err(Error::InvalidInput);
        }
        let ghost orig = bufs@;
        let mut bufs = bufs;
        let mut rev: Vec<Slot> = Vec::new();
        while bufs.len() > 0
            invariant
                bufs@.len() + rev@.len() == orig.len(),
                bufs@ == orig.subrange(0, bufs@.len() as int),
                forall|k: int| 0 <= k < rev@.len() ==> #[trigger] rev@[k].wf(),
                forall|k: int|
                    0 <= k < rev@.len() ==> #[trigger] rev@[k].view() == (EntryView {
                        free: true,
                        data: orig[orig.len() - 1 - k]@,
                        init: 0,
                        total: orig[orig.len() - 1 - k]@.len(),
                    }),
            decreases bufs@.len(),
        {
            let v = bufs.pop().unwrap();
            let n = v.len();
            rev.push(Slot { data: Some(v), init: 0, total: n });
        }
        let mut items: Vec<Slot> = Vec::new();
        while rev.len() > 0
            invariant
                items@.len() + rev@.len() == orig.len(),
                forall|k: int| 0 <= k < rev@.len() ==> #[trigger] rev@[k].wf(),
                forall|k: int|
                    0 <= k < rev@.len() ==> #[trigger] rev@[k].view() == (EntryView {
                        free: true,
                        data: orig[orig.len() - 1 - k]@,
                        init: 0,
                        total: orig[orig.len() - 1 - k]@.len(),
                    }),
                forall|k: int| 0 <= k < items@.len() ==> #[trigger] items@[k].wf(),
                forall|k: int|
                    0 <= k < items@.len() ==> #[trigger] items@[k].view() == (EntryView {
                        free: true,
                        data: orig[k]@,
                        init: 0,
                        total: orig[k]@.len(),
                    }),
            decreases rev@.len(),
        {
            let e = rev.pop().unwrap();
            items.push(e);
        }
        let r = Slots { items };
        assert(r.view().len() == orig.len());
        Ok(r)
    }

    fn len(&self) -> (r: usize)
        ensures
            r == self.view().len(),
    {
        self.items.len()
    }

    fn is_free(&self, i: usize) -> (r: bool)
        requires
            i < self.view().len(),
        ensures
            r == self.view()[i as int].free,
    {
        self.items[i].data.is_some()
    }

    fn total(&self, i: usize) -> (r: usize)
        requires
            i < self.view().len(),
        ensures
            r == self.view()[i as int].total,
    {
        self.items[i].total
    }

    fn take(&mut self, i: usize) -> (r: FixedBuf)
        requires
            old(self).wf(),
            i < old(self).view().len(),
            old(self).view()[i as int].free,
        ensures
            final(self).wf(),
            final(self).view() == spec_check_out(old(self).view(), i as int),
            r@ == handle_of(old(self).view()[i as int], i as int),
    {
        proof {
            assert(old(self).items@[i as int].wf());
        }
        let total = self.items[i].total;
        let init = self.items[i].init;
        let old_entry = self.items.remove(i);
        self.items.insert(i, Slot { data: None, init: 0, total });
        let data = old_entry.data.unwrap();
        proof {
            assert(self.view() =~= spec_check_out(old(self).view(), i as int));
        }
        FixedBuf::new(data, init, i as u16)
    }

    fn put_back(&mut self, buf: FixedBuf) -> (r: Result<(), FixedBuf>)
        requires
            old(self).wf(),
        ensures
            final(self).wf(),
            accepts(old(self).view(), buf@) <==> r is Ok,
            r is Ok ==> final(self).view() == spec_check_in(old(self).view(), buf@),
            r matches Err(b) ==> b == buf && final(self).view() == old(self).view(),
    {
        let i = buf.buf_index() as usize;
        if i >= self.items.len() || self.items[i].data.is_some() {
            return Err(buf);
        }
        let total = self.items[i].total;
        if buf.bytes_total() != total {
            return Err(buf);
        }
        let (data, init, _) = buf.into_parts();
        self.items.set(i, Slot { data: Some(data), init, total });
        proof {
            assert(self.view() =~= spec_check_in(old(self).view(), buf@));
        }
        Ok(())
    }
}

/// A collection of pre-registered buffers addressed by index. A buffer can be
/// checked out only while it is free, so at most one handle per index exists.
pub struct FixedBufRegistry {
    entries: Slots,
}

impl View for FixedBufRegistry {
    type V = Seq<EntryView>;

    closed spec fn view(&self) -> Seq<EntryView> {
        self.entries.view()
    }
}

impl FixedBufRegistry {
    pub closed spec fn wf(&self) -> bool {
        self.entries.wf()
    }

    /// Registers `bufs`, each with its whole length as capacity and nothing
    /// initialized yet, at indices `0..bufs.len()`.
    /// Fails with `InvalidInput` when there are more than `MAX_BUFFERS`.
    pub fn new(bufs: Vec<Vec<u8>>) -> (r: Result<FixedBufRegistry, Error>)
        ensures
            bufs@.len() > MAX_BUFFERS <==> r is Err,
            r matches Err(e) ==> e == Error::InvalidInput,
            r matches Ok(reg) ==> reg.wf() && reg@.len() == bufs@.len() && forall|i: int|
                0 <= i < bufs@.len() ==> #[trigger] reg@[i] == (EntryView {
                    free: true,
                    data: bufs@[i]@,
                    init: 0,
                    total: bufs@[i]@.len(),
                }),
    {
        match Slots::from_vecs(bufs) {
            Ok(entries) => Ok(FixedBufRegistry { entries }),
            Err(e) => Err(e),
        }
    }

    /// Number of registered buffers.
    pub fn len(&self) -> (r: usize)
        ensures
            r == self@.len(),
    {
        self.entries.len()
    }

    /// Checks out the buffer at `index`: succeeds exactly when it exists and
    /// is free.
    pub fn check_out(&mut self, index: u16) -> (r: Option<FixedBuf>)
        requires
            old(self).wf(),
        ensures
            final(self).wf(),
            ((index as int) < old(self)@.len() && old(self)@[index as int].free) <==> r is Some,
            r matches Some(b) ==> b@ == handle_of(old(self)@[index as int], index as int)
                && final(self)@ == spec_check_out(old(self)@, index as int),
            r is None ==> final(self)@ == old(self)@,
    {
        let i = index as usize;
        if i < self.entries.len() && self.entries.is_free(i) {
            Some(self.entries.take(i))
        } else {
            None
        }
    }

    /// Returns a handle to its slot, which becomes free with the handle's
    /// bytes and initialized length. A handle that the registry cannot accept
    /// comes back unchanged.
    pub fn check_in(&mut self, buf: FixedBuf) -> (r: Result<(), FixedBuf>)
        requires
            old(self).wf(),
        ensures
            final(self).wf(),
            accepts(old(self)@, buf@) <==> r is Ok,
            r is Ok ==> final(self)@ == spec_check_in(old(self)@, buf@),
            r matches Err(b) ==> b == buf && final(self)@ == old(self)@,
    {
        self.entries.put_back(buf)
    }
}

/// Slot `e` can serve a request for `cap` bytes.
pub open spec fn fits(e: EntryView, cap: nat) -> bool {
    e.free && e.total >= cap
}

/// `i` is the lowest index whose entry can serve a request for `cap` bytes.
pub open spec fn first_fit(s: Seq<EntryView>, cap: nat, i: int) -> bool {
    &&& 0 <= i < s.len()
    &&& fits(s[i], cap)
    &&& forall|j: int| 0 <= j < i ==> !fits(#[trigger] s[j], cap)
}

/// A task waiting for a buffer of at least `cap` bytes.
pub struct WaiterView {
    pub ticket: u64,
    pub cap: nat,
}

/// `k` is the earliest waiter that a buffer of `total` bytes can serve.
pub open spec fn first_waiter(ws: Seq<WaiterView>, total: nat, k: int) -> bool {
    &&& 0 <= k < ws.len()
    &&& ws[k].cap <= total
    &&& forall|j: int| 0 <= j < k ==> (#[trigger] ws[j]).cap > total
}

/// The abstract state of a pool: its entries, its waiters in arrival order,
/// and the ticket the next waiter gets.
pub struct PoolView {
    pub entries: Seq<EntryView>,
    pub waiters: Seq<WaiterView>,
    pub next_ticket: nat,
}

struct Waiter {
    ticket: u64,
    cap: usize,
}

impl Waiter {
    spec fn view(&self) -> WaiterView {
        WaiterView { ticket: self.ticket, cap: self.cap as nat }
    }
}

/// The outcome of a pool check-out.
pub enum CheckOut {
    /// A free buffer was large enough.
    Ready(FixedBuf),
    /// None was; the caller waits under this ticket until a check-in hands it
    /// a buffer.
    Waiting(u64),
}

/// A collection of pre-registered buffers handed out by size. A request takes
/// the lowest-indexed free buffer of at least the requested capacity, or
/// queues; a check-in serves the earliest queued request that the buffer
/// satisfies.
pub struct FixedBufPool {
    entries: Slots,
    waiters: Vec<Waiter>,
    next_ticket: u64,
}

impl View for FixedBufPool {
    type V = PoolView;

    closed spec fn view(&self) -> PoolView {
        PoolView {
            entries: self.entries.view(),
            waiters: self.waiters@.map_values(|w: Waiter| w.view()),
            next_ticket: self.next_ticket as nat,
        }
    }
}

impl FixedBufPool {
    /// Well-formed: entries are consistent, and tickets increase along the
    /// queue and stay below the next one.
    pub closed spec fn wf(&self) -> bool {
        &&& self.entries.wf()
        &&& forall|i: int, j: int|
            0 <= i < j < self.waiters@.len() ==> (#[trigger] self.waiters@[i]).ticket
                < (#[trigger] self.waiters@[j]).ticket
        &&& forall|i: int|
            0 <= i < self.waiters@.len() ==> (#[trigger] self.waiters@[i]).ticket
                < self.next_ticket
    }

    /// Registers `bufs`, each with its whole length as capacity and nothing
    /// initialized yet, with no waiters. Fails with
    /// `InvalidInput` when there are more than `MAX_BUFFERS`.
    pub fn new(bufs: Vec<Vec<u8>>) -> (r: Result<FixedBufPool, Error>)
        ensures
            bufs@.len() > MAX_BUFFERS <==> r is Err,
            r matches Err(e) ==> e == Error::InvalidInput,
            r matches Ok(p) ==> {
                &&& p.wf()
                &&& p@.waiters.len() == 0
                &&& p@.next_ticket == 0
                &&& p@.entries.len() == bufs@.len()
                &&& forall|i: int|
                    0 <= i < bufs@.len() ==> #[trigger] p@.entries[i] == (EntryView {
                        free: true,
                        data: bufs@[i]@,
                        init: 0,
                        total: bufs@[i]@.len(),
                    })
            },
    {
        match Slots::from_vecs(bufs) {
            Ok(entries) => {
                let p = FixedBufPool { entries, waiters: Vec::new(), next_ticket: 0 };
                assert(p@.waiters.len() == 0);
                Ok(p)
            },
            Err(e) => Err(e),
        }
    }

    /// Number of queued waiters.
    pub fn waiting(&self) -> (r: usize)
        ensures
            r == self@.waiters.len(),
    {
        self.waiters.len()
    }

    /// Asks for a buffer of at least `cap` bytes: the lowest-indexed free one
    /// that fits is checked out; when none fits, the request queues and gets
    /// a ticket. Fails with `QueueFull` only when tickets are exhausted.
    pub fn check_out(&mut self, cap: usize) -> (r: Result<CheckOut, Error>)
        requires
            old(self).wf(),
        ensures
            final(self).wf(),
            (exists|i: int| first_fit(old(self)@.entries, cap as nat, i)) <==> r matches Ok(
                CheckOut::Ready(_),
            ),
            r matches Ok(CheckOut::Ready(b)) ==> {
                &&& first_fit(old(self)@.entries, cap as nat, b@.index as int)
                &&& b@ == handle_of(old(self)@.entries[b@.index as int], b@.index as int)
                &&& final(self)@ == PoolView {
                    entries: spec_check_out(old(self)@.entries, b@.index as int),
                    ..old(self)@
                }
            },
            r matches Ok(CheckOut::Waiting(t)) ==> {
                &&& t == old(self)@.next_ticket
                &&& final(self)@ == PoolView {
                    waiters: old(self)@.waiters.push(WaiterView { ticket: t, cap: cap as nat }),
                    next_ticket: old(self)@.next_ticket + 1,
                    ..old(self)@
                }
            },
            r is Err ==> r == Err::<CheckOut, Error>(Error::QueueFull) && old(self)@.next_ticket
                == u64::MAX && final(self)@ == old(self)@,
    {
        let n = self.entries.len();
        let mut i: usize = 0;
        while i < n
            invariant
                self.wf(),
                self@ == old(self)@,
                n == self.entries.view().len(),
                0 <= i <= n,
                forall|j: int| 0 <= j < i ==> !fits(#[trigger] self.entries.view()[j], cap as nat),
            decreases n - i,
        {
            if self.entries.is_free(i) && self.entries.total(i) >= cap {
                assert(first_fit(old(self)@.entries, cap as nat, i as int));
                let b = self.entries.take(i);
                return Ok(CheckOut::Ready(b));
            }
            i = i + 1;
        }
        if self.next_ticket == u64::MAX {
            return Err(Error::QueueFull);
        }
        let t = self.next_ticket;
        self.waiters.push(Waiter { ticket: t, cap });
        self.next_ticket = t + 1;
        proof {
            assert(self@.waiters =~= old(self)@.waiters.push(WaiterView { ticket: t, cap: cap as nat }));
        }
        Ok(CheckOut::Waiting(t))
    }

    /// Returns a handle. When a queued request fits the buffer, the earliest
    /// such waiter leaves the queue and the buffer goes to it, still checked
    /// out; otherwise the buffer's slot becomes free. A handle that the pool
    /// cannot accept comes back unchanged.
    pub fn check_in(&mut self, buf: FixedBuf) -> (r: Result<Option<(u64, FixedBuf)>, FixedBuf>)
        requires
            old(self).wf(),
        ensures
            final(self).wf(),
            accepts(old(self)@.entries, buf@) <==> r is Ok,
            r matches Err(b) ==> b == buf && final(self)@ == old(self)@,
            r matches Ok(Some((t, b))) ==> b == buf && exists|k: int|
                {
                    &&& first_waiter(old(self)@.waiters, buf@.data.len(), k)
                    &&& t == old(self)@.waiters[k].ticket
                    &&& final(self)@ == PoolView { waiters: old(self)@.waiters.remove(k), ..old(self)@ }
                },
            r matches Ok(None) ==> {
                &&& forall|j: int|
                    0 <= j < old(self)@.waiters.len() ==> (#[trigger] old(self)@.waiters[j]).cap
                        > buf@.data.len()
                &&& final(self)@ == PoolView {
                    entries: spec_check_in(old(self)@.entries, buf@),
                    ..old(self)@
                }
            },
    {
        let i = buf.buf_index() as usize;
        if i >= self.entries.len() || self.entries.is_free(i) || buf.bytes_total()
            != self.entries.total(i) {
            return Err(buf);
        }
        let total = buf.bytes_total();
        let m = self.waiters.len();
        let mut k: usize = 0;
        while k < m
            invariant
                self.wf(),
                self@ == old(self)@,
                accepts(old(self)@.entries, buf@),
                m == self.waiters@.len(),
                0 <= k <= m,
                total == buf@.data.len(),
                forall|j: int| 0 <= j < k ==> (#[trigger] self@.waiters[j]).cap > total,
            decreases m - k,
        {
            if self.waiters[k].cap <= total {
                let ghost before = self.waiters@;
                let w = self.waiters.remove(k);
                proof {
                    assert(forall|a: int| 0 <= a < self.waiters@.len() ==> #[trigger] self.waiters@[a] == before[if a < k { a } else { a + 1 }]);
                    assert(self@.waiters =~= old(self)@.waiters.remove(k as int));
                    assert(first_waiter(old(self)@.waiters, buf@.data.len(), k as int));
                }
                return Ok(Some((w.ticket, buf)));
            }
            k = k + 1;
        }
        match self.entries.put_back(buf) {
            Ok(()) => Ok(None),
            Err(b) => Err(b),
        }
    }

    /// Withdraws the request queued under `ticket`, if it still waits.
    pub fn cancel(&mut self, ticket: u64) -> (r: bool)
        requires
            old(self).wf(),
        ensures
            final(self).wf(),
            r <==> exists|k: int|
                0 <= k < old(self)@.waiters.len() && (#[trigger] old(self)@.waiters[k]).ticket
                    == ticket,
            r ==> exists|k: int|
                {
                    &&& 0 <= k < old(self)@.waiters.len()
                    &&& old(self)@.waiters[k].ticket == ticket
                    &&& final(self)@ == PoolView { waiters: old(self)@.waiters.remove(k), ..old(self)@ }
                },
            !r ==> final(self)@ == old(self)@,
    {
        let m = self.waiters.len();
        let mut k: usize = 0;
        while k < m
            invariant
                self.wf(),
                self@ == old(self)@,
                m == self.waiters@.len(),
                0 <= k <= m,
                forall|j: int| 0 <= j < k ==> (#[trigger] self@.waiters[j]).ticket != ticket,
            decreases m - k,
        {
            if self.waiters[k].ticket == ticket {
                let ghost before = self.waiters@;
                self.waiters.remove(k);
                proof {
                    assert(forall|a: int| 0 <= a < self.waiters@.len() ==> #[trigger] self.waiters@[a] == before[if a < k { a } else { a + 1 }]);
                    assert(old(self)@.waiters[k as int].ticket == ticket);
                    assert(self@.waiters =~= old(self)@.waiters.remove(k as int));
                }
                return true;
            }
            k = k + 1;
        }
        false
    }
}

/// Checking out an index leaves it checked out, so a second check-out of the
/// same index fails until the handle is checked back in: one handle per index.
pub proof fn lemma_one_handle_per_index(s: Seq<EntryView>, i: int)
    requires
        0 <= i < s.len(),
        i < MAX_BUFFERS,
        s[i].free,
        s[i].data.len() == s[i].total,
    ensures
        !spec_check_out(s, i)[i].free,
        accepts(spec_check_out(s, i), handle_of(s[i], i)),
        spec_check_in(spec_check_out(s, i), handle_of(s[i], i))[i].free,
{
}

/// A check-in serves the earliest waiter that its buffer fits: every earlier
/// waiter asked for more than the served one, so none of the same capacity
/// class is passed over. Within a class, waiters are served in arrival order.
pub proof fn lemma_pool_fifo_per_class(ws: Seq<WaiterView>, total: nat, k: int)
    requires
        first_waiter(ws, total, k),
    ensures
        forall|j: int| 0 <= j < k ==> (#[trigger] ws[j]).cap > ws[k].cap,
        forall|j: int| 0 <= j < k ==> (#[trigger] ws[j]).cap != ws[k].cap,
{
}

} // verus!
