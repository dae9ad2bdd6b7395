use asynk::registry::{Readiness, RegistrationError, Registrations};
use asynk::{poll_io, Attempt, Direction, Interests, IoError, IoPoll};
use std::sync::atomic::{AtomicUsize, Ordering};
use std::sync::Arc;
use std::task::{Wake, Waker};

struct Counter(AtomicUsize);

impl Wake for Counter {
    fn wake(self: Arc<Self>) {
        self.0.fetch_add(1, Ordering::SeqCst);
    }
}

fn counting_waker() -> (Arc<Counter>, Waker) {
    let c = Arc::new(Counter(AtomicUsize::new(0)));
    (c.clone(), Waker::from(c))
}

#[test]
fn read_of_zero_bytes_is_ready_at_once() {
    let mut t = Registrations::new();
    let tok = t.register(Interests::of(Direction::Read));
    let (c, w) = counting_waker();
    let r: IoPoll<usize, ()> = poll_io(&mut t, tok, Direction::Read, w, Attempt::Done(0));
    assert!(matches!(r, IoPoll::Ready(Ok(0))));
    // No waker stored, the read direction is still registered.
    assert!(t.registration(tok).unwrap().wakers.wakers()[0].is_none());
    assert_eq!(t.registration(tok).unwrap().interests, Interests::of(Direction::Read));
    assert_eq!(c.0.load(Ordering::SeqCst), 0);
}

#[test]
fn completed_attempt_hands_back_its_value() {
    let mut t = Registrations::new();
    let tok = t.register(Interests::both());
    let (_c, w) = counting_waker();
    let r: IoPoll<usize, ()> = poll_io(&mut t, tok, Direction::Write, w, Attempt::Done(4096));
    assert!(matches!(r, IoPoll::Ready(Ok(4096))));
}

#[test]
fn would_block_stores_the_waker_and_is_pending() {
    let mut t = Registrations::new();
    let tok = t.register(Interests::both());
    let (c, w) = counting_waker();
    let r: IoPoll<usize, ()> = poll_io(&mut t, tok, Direction::Write, w, Attempt::WouldBlock);
    assert!(matches!(r, IoPoll::Pending));
    assert!(t.registration(tok).unwrap().wakers.wakers()[0].is_none());
    let ev = Readiness { token: tok, readable: false, writable: true };
    t.dispatch(&[ev]).iter().for_each(|w| w.wake_by_ref());
    assert_eq!(c.0.load(Ordering::SeqCst), 1);
}

#[test]
fn os_error_is_handed_on() {
    let mut t = Registrations::new();
    let tok = t.register(Interests::of(Direction::Read));
    let (_c, w) = counting_waker();
    let r: IoPoll<usize, &str> =
        poll_io(&mut t, tok, Direction::Read, w, Attempt::Failed("connection reset"));
    assert!(matches!(r, IoPoll::Ready(Err(IoError::Os("connection reset")))));
    assert!(t.registration(tok).unwrap().wakers.wakers()[0].is_none());
}

#[test]
fn would_block_on_unknown_token_fails() {
    let mut t = Registrations::new();
    let (_c, w) = counting_waker();
    let r: IoPoll<usize, ()> = poll_io(&mut t, 5, Direction::Read, w, Attempt::WouldBlock);
    assert!(matches!(
        r,
        IoPoll::Ready(Err(IoError::Registration(RegistrationError::UnknownToken(5))))
    ));
}

#[test]
fn large_write_progresses_through_write_wakeups() {
    // A writer of 10 MiB meets would-block between chunks; each write-readiness
    // event wakes it and the next attempt goes on.
    let total: usize = 10 * 1024 * 1024;
    let chunk: usize = 65536;
    let mut t = Registrations::new();
    let tok = t.register(Interests::both());
    let (c, _) = counting_waker();
    let mut written: usize = 0;
    let mut blocked = false;
    while written < total {
        let w = Waker::from(c.clone());
        let attempt = if blocked { Attempt::WouldBlock } else { Attempt::Done(chunk.min(total - written)) };
        match poll_io::<usize, ()>(&mut t, tok, Direction::Write, w, attempt) {
            IoPoll::Ready(Ok(n)) => {
                written += n;
                blocked = true;
            }
            IoPoll::Pending => {
                let ev = Readiness { token: tok, readable: false, writable: true };
                t.dispatch(&[ev]).iter().for_each(|w| w.wake_by_ref());
                blocked = false;
            }
            IoPoll::Ready(Err(_)) => panic!("write failed"),
        }
    }
    assert_eq!(written, total);
    assert_eq!(c.0.load(Ordering::SeqCst), total / chunk - 1);
}
