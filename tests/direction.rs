use asynk::{Direction, Interests, WakerMap};
use std::sync::Arc;
use std::task::{Wake, Waker};

struct Noop;

impl Wake for Noop {
    fn wake(self: Arc<Self>) {}
}

#[test]
fn waker_map_starts_empty() {
    let m = WakerMap::new();
    assert_eq!(m.wakers().len(), 2);
    assert!(m.wakers()[0].is_none() && m.wakers()[1].is_none());
}

#[test]
fn waker_map_sets_the_slot_of_its_direction() {
    let a = Waker::from(Arc::new(Noop));
    let b = Waker::from(Arc::new(Noop));
    let mut m = WakerMap::new();
    m.set_waker(Direction::Write, a.clone());
    assert!(m.wakers()[0].is_none());
    assert!(m.wakers()[1].as_ref().unwrap().will_wake(&a));
    m.set_waker(Direction::Read, b.clone());
    assert!(m.wakers()[0].as_ref().unwrap().will_wake(&b));
    assert!(m.wakers()[1].as_ref().unwrap().will_wake(&a));
}

#[test]
fn interests_add_and_remove() {
    let r = Interests::of(Direction::Read);
    assert_eq!(r, Interests { readable: true, writable: false });
    assert!(r.has(Direction::Read) && !r.has(Direction::Write));
    assert_eq!(r.add(Direction::Write), Interests::both());
    assert_eq!(r.add(Direction::Read), r);
    assert_eq!(Interests::both().remove(Direction::Read), Some(Interests::of(Direction::Write)));
    assert_eq!(r.remove(Direction::Read), None);
    assert_eq!(r.remove(Direction::Write), Some(r));
}

#[test]
fn directions_have_their_slots() {
    assert_eq!(Direction::Read.index(), 0);
    assert_eq!(Direction::Write.index(), 1);
}
