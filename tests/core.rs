use uring_core::buf::{complete_read, FixedBuf, IoBuf, IoBufMut, Slice};
use uring_core::driver::Driver;
use uring_core::error::Error;
use uring_core::file::{ExactKind, ExactLoop, File};
use uring_core::fixed::{CheckOut, FixedBufPool, FixedBufRegistry, MAX_BUFFERS};
use uring_core::result::{BufError, BufResult, ResultExt};
use uring_core::shared_fd::{FdPhase, SharedFd};
use uring_core::slab::{Cqe, Delivery, PollOutcome, Slab};
use uring_core::token::Token;

fn one_buffer(len: usize) -> FixedBuf {
    let mut reg = FixedBufRegistry::new(vec![vec![0u8; len]]).unwrap();
    reg.check_out(0).unwrap()
}

#[test]
fn error_from_code_maps_negative_to_os() {
    assert_eq!(Error::from_code(-2), Err(Error::Os(2)));
    assert_eq!(Error::from_code(0), Ok(0));
    assert_eq!(Error::from_code(17), Ok(17));
}

#[test]
fn lift_buf_returns_buffer_in_both_arms() {
    let ok: BufResult<usize, Vec<u8>> = Ok((3, vec![1, 2, 3]));
    let (res, buf) = ok.lift_buf();
    assert_eq!(res, Ok(3));
    assert_eq!(buf, vec![1, 2, 3]);
    let err: BufResult<usize, Vec<u8>> = Err(BufError(Error::UnexpectedEof, vec![9]));
    let (res, buf) = err.lift_buf();
    assert_eq!(res, Err(Error::UnexpectedEof));
    assert_eq!(buf, vec![9]);
}

#[test]
fn map_buf_transforms_buffer_in_both_arms() {
    let ok: BufResult<u8, Vec<u8>> = Ok((7, vec![1, 2]));
    match ok.map_buf(|b| b.len()) {
        Ok((out, n)) => {
            assert_eq!(out, 7);
            assert_eq!(n, 2);
        }
        Err(_) => panic!("expected success"),
    }
    let err: BufResult<u8, Vec<u8>> = Err(BufError(Error::WriteZero, vec![1, 2, 3]));
    match err.map_buf(|b| b.len()) {
        Err(BufError(e, n)) => {
            assert_eq!(e, Error::WriteZero);
            assert_eq!(n, 3);
        }
        Ok(_) => panic!("expected failure"),
    }
}

#[test]
fn set_init_only_grows_and_stays_within_capacity() {
    let mut b = one_buffer(16);
    assert_eq!(b.bytes_total(), 16);
    assert_eq!(b.bytes_init(), 0);
    b.set_init(10);
    assert_eq!(b.bytes_init(), 10);
    b.set_init(4);
    assert_eq!(b.bytes_init(), 10);
    b.set_init(16);
    assert_eq!(b.bytes_init(), 16);
    assert_eq!(b.bytes_total(), 16);
    assert_eq!(b.as_slice().len(), 16);
}

#[test]
fn complete_read_counts_bytes_and_returns_buffer() {
    let b = one_buffer(10);
    match complete_read(3, b) {
        Ok((n, b)) => {
            assert_eq!(n, 3);
            assert_eq!(b.bytes_init(), 3);
            assert_eq!(b.bytes_total(), 10);
        }
        Err(_) => panic!("expected success"),
    }
}

#[test]
fn complete_read_error_returns_buffer_unchanged() {
    let b = one_buffer(10);
    match complete_read(-9, b) {
        Err(BufError(e, b)) => {
            assert_eq!(e, Error::Os(9));
            assert_eq!(b.bytes_init(), 0);
            assert_eq!(b.bytes_total(), 10);
            assert_eq!(b.buf_index(), 0);
        }
        Ok(_) => panic!("expected failure"),
    }
}

#[test]
fn registry_allows_one_handle_per_index() {
    let mut reg = FixedBufRegistry::new(vec![vec![0u8; 8], vec![0u8; 4]]).unwrap();
    assert_eq!(reg.len(), 2);
    let a = reg.check_out(1).unwrap();
    assert_eq!(a.buf_index(), 1);
    assert_eq!(a.bytes_total(), 4);
    assert!(reg.check_out(1).is_none());
    assert!(reg.check_out(2).is_none());
    assert!(reg.check_in(a).is_ok());
    let again = reg.check_out(1).unwrap();
    assert_eq!(again.buf_index(), 1);
}

#[test]
fn registry_keeps_initialized_length_across_check_in() {
    let mut reg = FixedBufRegistry::new(vec![vec![0u8; 8]]).unwrap();
    let mut a = reg.check_out(0).unwrap();
    a.set_init(5);
    assert!(reg.check_in(a).is_ok());
    let b = reg.check_out(0).unwrap();
    assert_eq!(b.bytes_init(), 5);
}

#[test]
fn registry_refuses_foreign_handle() {
    let mut reg = FixedBufRegistry::new(vec![vec![0u8; 8]]).unwrap();
    let foreign = one_buffer(8);
    // index 0 of this registry is still free
    let back = reg.check_in(foreign);
    assert!(back.is_err());
    let mut small = FixedBufRegistry::new(vec![vec![0u8; 3]]).unwrap();
    let _held = small.check_out(0).unwrap();
    assert!(small.check_in(one_buffer(8)).is_err());
}

#[test]
fn registry_rejects_too_many_buffers() {
    let bufs: Vec<Vec<u8>> = (0..MAX_BUFFERS + 1).map(|_| Vec::new()).collect();
    assert!(matches!(FixedBufRegistry::new(bufs), Err(Error::InvalidInput)));
    let bufs: Vec<Vec<u8>> = (0..MAX_BUFFERS).map(|_| Vec::new()).collect();
    assert_eq!(FixedBufRegistry::new(bufs).unwrap().len(), MAX_BUFFERS);
}

#[test]
fn pool_contention_serves_third_task_on_check_in() {
    let mut pool = FixedBufPool::new(vec![vec![0u8; 4096], vec![0u8; 4096]]).unwrap();
    let first = match pool.check_out(4096).unwrap() {
        CheckOut::Ready(b) => b,
        CheckOut::Waiting(_) => panic!("first should resolve at once"),
    };
    let second = match pool.check_out(4096).unwrap() {
        CheckOut::Ready(b) => b,
        CheckOut::Waiting(_) => panic!("second should resolve at once"),
    };
    assert_eq!(first.buf_index(), 0);
    assert_eq!(second.buf_index(), 1);
    let ticket = match pool.check_out(4096).unwrap() {
        CheckOut::Waiting(t) => t,
        CheckOut::Ready(_) => panic!("third must wait"),
    };
    assert_eq!(pool.waiting(), 1);
    match pool.check_in(second) {
        Ok(Some((t, b))) => {
            assert_eq!(t, ticket);
            assert_eq!(b.buf_index(), 1);
        }
        _ => panic!("the waiter should get the buffer"),
    }
    assert_eq!(pool.waiting(), 0);
    assert!(matches!(pool.check_in(first), Ok(None)));
}

#[test]
fn pool_serves_waiters_fifo_within_a_class() {
    let mut pool = FixedBufPool::new(vec![vec![0u8; 100], vec![0u8; 10]]).unwrap();
    let big = match pool.check_out(100).unwrap() {
        CheckOut::Ready(b) => b,
        _ => panic!(),
    };
    let small = match pool.check_out(10).unwrap() {
        CheckOut::Ready(b) => b,
        _ => panic!(),
    };
    let w_big = match pool.check_out(50).unwrap() {
        CheckOut::Waiting(t) => t,
        _ => panic!(),
    };
    let w1 = match pool.check_out(10).unwrap() {
        CheckOut::Waiting(t) => t,
        _ => panic!(),
    };
    let w2 = match pool.check_out(10).unwrap() {
        CheckOut::Waiting(t) => t,
        _ => panic!(),
    };
    // a small buffer skips the large request and serves the earliest small one
    match pool.check_in(small) {
        Ok(Some((t, b))) => {
            assert_eq!(t, w1);
            assert!(matches!(pool.check_in(b), Ok(Some((t2, _))) if t2 == w2));
        }
        _ => panic!(),
    }
    match pool.check_in(big) {
        Ok(Some((t, _))) => assert_eq!(t, w_big),
        _ => panic!(),
    }
    assert_eq!(pool.waiting(), 0);
}

#[test]
fn pool_cancelled_waiter_is_not_served() {
    let mut pool = FixedBufPool::new(vec![vec![0u8; 8]]).unwrap();
    let held = match pool.check_out(8).unwrap() {
        CheckOut::Ready(b) => b,
        _ => panic!(),
    };
    let t = match pool.check_out(8).unwrap() {
        CheckOut::Waiting(t) => t,
        _ => panic!(),
    };
    assert!(pool.cancel(t));
    assert!(!pool.cancel(t));
    assert!(matches!(pool.check_in(held), Ok(None)));
    assert!(matches!(pool.check_out(9), Ok(CheckOut::Waiting(_))));
}

#[test]
fn token_round_trips_through_user_data() {
    let t = Token { index: 7, generation: 3 };
    assert_eq!(t.user_data(), (3u64 << 32) | 7);
    assert_eq!(Token::from_user_data(t.user_data()), t);
    assert_eq!(Token::from_user_data(u64::MAX), Token { index: u32::MAX, generation: u32::MAX });
}

#[test]
fn slab_one_shot_lifecycle() {
    let mut slab: Slab<u32, Vec<u8>> = Slab::new(4);
    let t = slab.insert().unwrap();
    assert_eq!(t, Token { index: 0, generation: 0 });
    assert!(matches!(slab.poll(t, 1), PollOutcome::Pending));
    assert!(matches!(slab.complete(t.user_data(), Cqe { result: 5, flags: 0 }), Delivery::Wake(Some(1))));
    match slab.poll(t, 2) {
        PollOutcome::Ready(c) => assert_eq!(c, Cqe { result: 5, flags: 0 }),
        _ => panic!(),
    }
    assert!(!slab.is_live(t));
    assert!(matches!(slab.poll(t, 3), PollOutcome::Invalid));
    let t2 = slab.insert().unwrap();
    assert_eq!(t2, Token { index: 0, generation: 1 });
    assert!(matches!(slab.complete(t.user_data(), Cqe { result: 1, flags: 0 }), Delivery::Stale));
}

#[test]
fn slab_cancellation_keeps_resources_until_final_completion() {
    let mut slab: Slab<u32, Vec<u8>> = Slab::new(4);
    let t = slab.insert().unwrap();
    assert!(slab.detach(t, vec![1, 2, 3]).is_none());
    assert!(slab.is_live(t));
    let t2 = slab.insert().unwrap();
    assert_eq!(t2.index, 1);
    match slab.complete(t.user_data(), Cqe { result: 3, flags: 0 }) {
        Delivery::Release(buf) => assert_eq!(buf, vec![1, 2, 3]),
        _ => panic!("resources come back with the completion"),
    }
    assert!(!slab.is_live(t));
}

#[test]
fn slab_detach_after_completion_returns_resources() {
    let mut slab: Slab<u32, Vec<u8>> = Slab::new(1);
    let t = slab.insert().unwrap();
    slab.complete(t.user_data(), Cqe { result: 0, flags: 0 });
    assert_eq!(slab.detach(t, vec![4]), Some(vec![4]));
    assert!(!slab.is_live(t));
}

#[test]
fn slab_multishot_keeps_slot_until_final() {
    let mut slab: Slab<u32, ()> = Slab::new(2);
    let t = slab.insert().unwrap();
    slab.complete(t.user_data(), Cqe { result: 10, flags: 2 });
    slab.complete(t.user_data(), Cqe { result: 11, flags: 2 });
    assert!(matches!(slab.poll(t, 0), PollOutcome::Ready(Cqe { result: 10, .. })));
    assert!(matches!(slab.poll(t, 0), PollOutcome::Ready(Cqe { result: 11, .. })));
    assert!(slab.is_live(t));
    assert!(matches!(slab.poll(t, 0), PollOutcome::Pending));
    slab.complete(t.user_data(), Cqe { result: 12, flags: 0 });
    assert!(matches!(slab.poll(t, 0), PollOutcome::Ready(Cqe { result: 12, .. })));
    assert!(!slab.is_live(t));
}

#[test]
fn slab_detached_multishot_waits_for_final() {
    let mut slab: Slab<u32, u8> = Slab::new(2);
    let t = slab.insert().unwrap();
    assert!(slab.detach(t, 9).is_none());
    assert!(matches!(slab.complete(t.user_data(), Cqe { result: 1, flags: 2 }), Delivery::Wake(None)));
    assert!(slab.is_live(t));
    assert!(matches!(slab.complete(t.user_data(), Cqe { result: 1, flags: 0 }), Delivery::Release(9)));
}

#[test]
fn slab_full_reports_queue_full() {
    let mut slab: Slab<u32, ()> = Slab::new(2);
    slab.insert().unwrap();
    slab.insert().unwrap();
    assert!(matches!(slab.insert(), Err(Error::QueueFull)));
    assert_eq!(slab.len(), 2);
}

#[test]
fn shared_fd_closes_after_last_release_once() {
    let mut fd = SharedFd::new(5);
    fd.acquire();
    assert_eq!(fd.strong_count(), 2);
    assert_eq!(fd.release(), None);
    assert_eq!(fd.phase(), FdPhase::Open);
    assert_eq!(fd.release(), Some(5));
    assert_eq!(fd.phase(), FdPhase::Closing);
    assert!(fd.close_completed());
    assert_eq!(fd.phase(), FdPhase::Closed);
    assert!(!fd.close_completed());
    assert_eq!(fd.phase(), FdPhase::Closed);
}

#[test]
fn file_wraps_descriptor() {
    let mut f = File::from_descriptor(12);
    assert_eq!(f.as_raw_fd(), 12);
    f.shared_fd().acquire();
    assert_eq!(f.shared_fd().strong_count(), 2);
    let fd = f.into_shared_fd();
    assert_eq!(fd.raw_fd(), 12);
    let g = File::from_shared_fd(SharedFd::new(3));
    assert_eq!(g.as_raw_fd(), 3);
}

#[test]
fn read_exact_short_file_fails_with_unexpected_eof() {
    let mut l = ExactLoop::new(ExactKind::ReadExact, 0, 10).unwrap();
    assert_eq!(l.next(), Some((0, 0)));
    assert_eq!(l.advance(Ok(3)), None);
    assert_eq!(l.next(), Some((3, 3)));
    assert_eq!(l.remaining(), 7);
    assert_eq!(l.advance(Ok(0)), Some(Err(Error::UnexpectedEof)));
}

#[test]
fn write_all_completes_in_pieces() {
    let mut l = ExactLoop::new(ExactKind::WriteAll, 100, 6).unwrap();
    assert_eq!(l.advance(Ok(2)), None);
    assert_eq!(l.next(), Some((102, 2)));
    assert_eq!(l.advance(Ok(4)), Some(Ok(())));
    assert_eq!(l.next(), None);
}

#[test]
fn write_all_zero_progress_is_write_zero() {
    let mut l = ExactLoop::new(ExactKind::WriteAll, 0, 6).unwrap();
    assert_eq!(l.advance(Ok(0)), Some(Err(Error::WriteZero)));
    let mut l = ExactLoop::new(ExactKind::ReadExact, 0, 6).unwrap();
    assert_eq!(l.advance(Err(Error::Os(5))), Some(Err(Error::Os(5))));
}

#[test]
fn exact_loop_rejects_overflowing_range() {
    assert!(matches!(ExactLoop::new(ExactKind::ReadExact, u64::MAX - 3, 4), Err(Error::InvalidInput)));
    assert!(ExactLoop::new(ExactKind::ReadExact, u64::MAX - 3, 3).is_ok());
    let l = ExactLoop::new(ExactKind::WriteAll, 5, 0).unwrap();
    assert_eq!(l.next(), None);
}

#[test]
fn driver_tags_entries_and_flushes_in_order() {
    let mut d: Driver<u32, ()> = Driver::new(8, 4);
    let a = d.submit(io_uring::opcode::Nop::new().build()).ok().unwrap();
    let b = d.submit(io_uring::opcode::Nop::new().build()).ok().unwrap();
    let c = d.submit(io_uring::opcode::Nop::new().build()).ok().unwrap();
    assert_eq!(d.backlog_len(), 3);
    let out = d.flush(2);
    assert_eq!(out.len(), 2);
    assert_eq!(out[0].get_user_data(), a.user_data());
    assert_eq!(out[1].get_user_data(), b.user_data());
    assert_eq!(d.backlog_len(), 1);
    let rest = d.flush(10);
    assert_eq!(rest.len(), 1);
    assert_eq!(rest[0].get_user_data(), c.user_data());
    assert!(matches!(d.complete(b.user_data(), Cqe { result: 0, flags: 0 }), Delivery::Wake(None)));
    assert!(matches!(d.poll(b, 1), PollOutcome::Ready(_)));
    assert!(matches!(d.poll(a, 1), PollOutcome::Pending));
    assert_eq!(d.detach(a, ()), None);
}

#[test]
fn driver_full_backlog_reports_queue_full() {
    let mut d: Driver<u32, ()> = Driver::new(8, 1);
    assert!(d.submit(io_uring::opcode::Nop::new().build()).is_ok());
    match d.submit(io_uring::opcode::Nop::new().build()) {
        Err((e, _)) => assert_eq!(e, Error::QueueFull),
        Ok(_) => panic!("backlog is full"),
    }
    d.flush(1);
    assert!(d.submit(io_uring::opcode::Nop::new().build()).is_ok());
}

#[test]
fn slice_window_tracks_initialized_bytes() {
    let mut b = one_buffer(10);
    b.set_init(6);
    let s = Slice::new(b, 4, 9);
    assert_eq!(s.bounds(), (4, 9));
    assert_eq!(s.bytes_total(), 5);
    assert_eq!(s.bytes_init(), 2);
    let mut s = s.slice_from(3);
    assert_eq!(s.bounds(), (7, 9));
    assert_eq!(s.bytes_init(), 0);
    s.set_init(1);
    assert_eq!(s.bytes_init(), 1);
    let b = s.into_inner();
    assert_eq!(b.bytes_init(), 8);
    assert_eq!(b.bytes_total(), 10);
}

#[test]
fn complete_read_through_a_slice_advances_the_buffer() {
    let b = one_buffer(10);
    let s = Slice::new(b, 2, 10);
    match complete_read(4, s) {
        Ok((n, s)) => {
            assert_eq!(n, 4);
            assert_eq!(s.bytes_init(), 4);
            assert_eq!(s.into_inner().bytes_init(), 6);
        }
        Err(_) => panic!("expected success"),
    }
}

#[test]
fn fixed_buf_bytes_written_show_in_initialized_prefix() {
    let mut b = one_buffer(4);
    b.as_mut_slice().copy_from_slice(b"wxyz");
    assert_eq!(b.as_slice(), b"");
    b.set_init(3);
    assert_eq!(b.as_slice(), b"wxy");
}
