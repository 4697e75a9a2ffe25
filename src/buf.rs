use vstd::prelude::*;
use crate::error::{Error, spec_from_code};
use crate::result::{BufError, BufResult};
use vstd::slice::slice_subrange;

verus! {

/// A buffer whose memory stays put while the kernel uses it: it has a total
/// capacity and an initialized prefix that never exceeds it.
pub trait IoBuf: Sized {
    /// Length of the initialized prefix.
    spec fn init_len(&self) -> nat;

    /// Total capacity.
    spec fn total_len(&self) -> nat;

    fn bytes_init(&self) -> (r: usize)
        ensures
            r == self.init_len(),
            self.init_len() <= self.total_len(),
    ;

    fn bytes_total(&self) -> (r: usize)
        ensures
            r == self.total_len(),
    ;
}

/// A buffer that the kernel may write into.
pub trait IoBufMut: IoBuf {
    /// Declares that the first `pos` bytes are initialized. The initialized
    /// length only grows, and never beyond the capacity.
    fn set_init(&mut self, pos: usize)
        requires
            pos <= old(self).total_len(),
        ensures
            final(self).total_len() == old(self).total_len(),
            final(self).init_len() == (if pos > old(self).init_len() {
                pos as nat
            } else {
                old(self).init_len()
            }),
    ;
}

/// What a handle holds: the buffer's bytes (its whole capacity), the length of
/// the initialized prefix, and the buffer's index in its collection.
pub struct FixedBufView {
    pub data: Seq<u8>,
    pub init: nat,
    pub index: u16,
}

/// A unique handle to one pre-registered buffer of a fixed-buffer collection.
/// Only one handle per buffer exists at a time; it goes back to its
/// collection on check-in.
#[derive(Debug)]
pub struct FixedBuf {
    buf: Vec<u8>,
    init: usize,
    index: u16,
}

impl View for FixedBuf {
    type V = FixedBufView;

    closed spec fn view(&self) -> FixedBufView {
        FixedBufView { data: self.buf@, init: self.init_clamped() as nat, index: self.index }
    }
}

impl FixedBuf {
    /// The initialized length never reads beyond the capacity.
    closed spec fn init_clamped(&self) -> int {
        if self.init <= self.buf@.len() {
            self.init as int
        } else {
            self.buf@.len() as int
        }
    }

    pub(crate) fn new(buf: Vec<u8>, init: usize, index: u16) -> (r: FixedBuf)
        requires
            init <= buf@.len(),
        ensures
            r@ == (FixedBufView { data: buf@, init: init as nat, index }),
    {
        FixedBuf { buf, init, index }
    }

    pub(crate) fn into_parts(self) -> (r: (Vec<u8>, usize, u16))
        ensures
            r.0@ == self@.data,
            r.1 == self@.init,
            r.2 == self@.index,
            r.1 <= r.0@.len(),
    {
        let init = if self.init <= self.buf.len() {
            self.init
        } else {
            self.buf.len()
        };
        (self.buf, init, self.index)
    }

    /// Index of the underlying collection buffer.
    pub fn buf_index(&self) -> (r: u16)
        ensures
            r == self@.index,
    {
        self.index
    }

    /// The initialized prefix of the buffer.
    pub fn as_slice(&self) -> (r: &[u8])
        ensures
            r@ == self@.data.subrange(0, self@.init as int),
    {
        slice_subrange(self.buf.as_slice(), 0, self.bytes_init())
    }

    /// The whole capacity of the buffer, for the kernel or the caller to fill.
    /// The initialized length stays as it was.
    pub fn as_mut_slice(&mut self) -> (r: &mut [u8])
        ensures
            r@ == old(self)@.data,
            final(self)@.data == final(r)@,
            final(self)@.index == old(self)@.index,
            final(r)@.len() == r@.len() ==> final(self)@.init == old(self)@.init,
    {
        self.buf.as_mut_slice()
    }
}

impl IoBuf for FixedBuf {
    open spec fn init_len(&self) -> nat {
        self@.init
    }

    open spec fn total_len(&self) -> nat {
        self@.data.len()
    }

    fn bytes_init(&self) -> (r: usize) {
        if self.init <= self.buf.len() {
            self.init
        } else {
            self.buf.len()
        }
    }

    fn bytes_total(&self) -> (r: usize) {
        self.buf.len()
    }
}

impl IoBufMut for FixedBuf {
    fn set_init(&mut self, pos: usize) {
        if self.init < pos {
            self.init = pos;
        }
    }
}

/// A view of the bytes `begin..end` of a buffer. Its capacity is the window's
/// width, and its initialized length is the part of the buffer's initialized
/// prefix that falls inside the window.
pub struct Slice<T: IoBuf> {
    buf: T,
    begin: usize,
    end: usize,
}

/// The initialized length of the window `begin..end` over a buffer whose
/// initialized prefix has length `init`.
pub open spec fn window_init(init: nat, begin: nat, end: nat) -> nat {
    if init <= begin {
        0
    } else if init >= end {
        (end - begin) as nat
    } else {
        (init - begin) as nat
    }
}

impl<T: IoBuf> Slice<T> {
    /// The window lies inside the buffer. Every slice that `new` and
    /// `slice_from` make does.
    pub closed spec fn well_placed(&self) -> bool {
        self.begin <= self.end && self.end <= self.buf.total_len()
    }

    /// The underlying buffer.
    pub closed spec fn inner(&self) -> T {
        self.buf
    }

    /// The window's offsets into the underlying buffer.
    pub closed spec fn spec_bounds(&self) -> (usize, usize) {
        (self.begin, self.end)
    }

    /// The window `begin..end` of `buf`.
    pub fn new(buf: T, begin: usize, end: usize) -> (r: Slice<T>)
        requires
            begin <= end <= buf.total_len(),
        ensures
            r.well_placed(),
            r.inner() == buf,
            r.spec_bounds() == (begin, end),
    {
        Slice { buf, begin, end }
    }

    /// The window's offsets into the underlying buffer.
    pub fn bounds(&self) -> (r: (usize, usize))
        ensures
            r == self.spec_bounds(),
    {
        (self.begin, self.end)
    }

    /// The narrower window that starts `n` bytes into this one.
    pub fn slice_from(self, n: usize) -> (r: Slice<T>)
        requires
            self.well_placed(),
            n <= self.spec_bounds().1 - self.spec_bounds().0,
        ensures
            r.well_placed(),
            r.inner() == self.inner(),
            r.spec_bounds() == ((self.spec_bounds().0 + n) as usize, self.spec_bounds().1),
    {
        Slice { buf: self.buf, begin: self.begin + n, end: self.end }
    }

    /// Gives the underlying buffer back, whatever the window.
    pub fn into_inner(self) -> (r: T)
        ensures
            r == self.inner(),
    {
        self.buf
    }

    fn check_placed(&self) -> (r: bool)
        ensures
            r == self.well_placed(),
    {
        self.begin <= self.end && self.end <= self.buf.bytes_total()
    }
}

impl<T: IoBuf> IoBuf for Slice<T> {
    open spec fn init_len(&self) -> nat {
        if self.well_placed() {
            window_init(
                self.inner().init_len(),
                self.spec_bounds().0 as nat,
                self.spec_bounds().1 as nat,
            )
        } else {
            0
        }
    }

    open spec fn total_len(&self) -> nat {
        if self.well_placed() {
            (self.spec_bounds().1 - self.spec_bounds().0) as nat
        } else {
            0
        }
    }

    fn bytes_init(&self) -> (r: usize) {
        if !self.check_placed() {
            return 0;
        }
        let init = self.buf.bytes_init();
        if init <= self.begin {
            0
        } else if init >= self.end {
            self.end - self.begin
        } else {
            init - self.begin
        }
    }

    fn bytes_total(&self) -> (r: usize) {
        if !self.check_placed() {
            return 0;
        }
        self.end - self.begin
    }
}

impl<T: IoBufMut> IoBufMut for Slice<T> {
    fn set_init(&mut self, pos: usize) {
        if self.check_placed() {
            self.buf.set_init(self.begin + pos);
        }
    }
}

/// Completion handler of a read into `buf`: a non-negative code is the count
/// of bytes the kernel wrote, which become initialized; a negative one is an
/// OS error. The buffer comes back either way.
pub fn complete_read<T: IoBufMut>(res: i32, buf: T) -> (r: BufResult<usize, T>)
    requires
        res > i32::MIN,
        res >= 0 ==> res as nat <= buf.total_len(),
    ensures
        match r {
            Ok((n, b)) => {
                &&& spec_from_code(res) == Ok::<u32, Error>(n as u32)
                &&& n == res
                &&& b.total_len() == buf.total_len()
                &&& b.init_len() == (if n > buf.init_len() { n as nat } else { buf.init_len() })
            },
            Err(BufError(e, b)) => spec_from_code(res) == Err::<u32, Error>(e) && b == buf,
        },
{
    match Error::from_code(res) {
        Ok(v) => {
            let n = v as usize;
            let mut buf = buf;
            buf.set_init(n);
            Ok((n, buf))
        },
        Err(e) => Err(BufError(e, buf)),
    }
}

} // verus!
