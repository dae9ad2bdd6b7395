//! Readiness directions, interest sets and the per-registration waker slots.
use std::task::Waker;
use vstd::prelude::*;

verus! {

/// Declares std::task::Waker as an opaque type: the table stores, moves and
/// hands back wakers, and never looks inside one.
#[verifier::external_type_specification]
#[verifier::external_body]
pub struct ExWaker(std::task::Waker);

/// Direction of interest tracking: for reading or for writing.
#[derive(Clone, Copy, PartialEq, Eq, Structural, Debug)]
pub enum Direction {
    Read,
    Write,
}

impl Direction {
    /// Index of the waker slot that serves this direction.
    pub open spec fn spec_index(self) -> int {
        match self {
            Direction::Read => 0,
            Direction::Write => 1,
        }
    }

    pub fn index(self) -> (r: usize)
        ensures
            r as int == self.spec_index(),
    {
        match self {
            Direction::Read => 0,
            Direction::Write => 1,
        }
    }
}

/// The directions a registration subscribes to; a valid set is not empty.
#[derive(Clone, Copy, PartialEq, Eq, Structural, Debug)]
pub struct Interests {
    pub readable: bool,
    pub writable: bool,
}

impl Interests {
    pub open spec fn wf(self) -> bool {
        self.readable || self.writable
    }

    pub open spec fn contains(self, direction: Direction) -> bool {
        match direction {
            Direction::Read => self.readable,
            Direction::Write => self.writable,
        }
    }

    /// The set that holds `direction` alone.
    pub fn of(direction: Direction) -> (r: Self)
        ensures
            r.wf(),
            forall|d: Direction| r.contains(d) <==> d == direction,
    {
        match direction {
            Direction::Read => Interests { readable: true, writable: false },
            Direction::Write => Interests { readable: false, writable: true },
        }
    }

    /// Both directions.
    pub fn both() -> (r: Self)
        ensures
            r.wf(),
            forall|d: Direction| r.contains(d),
    {
        Interests { readable: true, writable: true }
    }

    pub fn has(self, direction: Direction) -> (r: bool)
        ensures
            r == self.contains(direction),
    {
        match direction {
            Direction::Read => self.readable,
            Direction::Write => self.writable,
        }
    }

    /// This set with `direction` added.
    pub open spec fn spec_add(self, direction: Direction) -> Interests {
        match direction {
            Direction::Read => Interests { readable: true, writable: self.writable },
            Direction::Write => Interests { readable: self.readable, writable: true },
        }
    }

    /// This set without `direction` (possibly empty).
    pub open spec fn spec_remove(self, direction: Direction) -> Interests {
        match direction {
            Direction::Read => Interests { readable: false, writable: self.writable },
            Direction::Write => Interests { readable: self.readable, writable: false },
        }
    }

    pub fn add(self, direction: Direction) -> (r: Self)
        ensures
            r == self.spec_add(direction),
            r.wf(),
    {
        match direction {
            Direction::Read => Interests { readable: true, writable: self.writable },
            Direction::Write => Interests { readable: self.readable, writable: true },
        }
    }

    /// This set without `direction`, or `None` where nothing would be left.
    pub fn remove(self, direction: Direction) -> (r: Option<Self>)
        ensures
            r == (if self.spec_remove(direction).wf() {
                Some(self.spec_remove(direction))
            } else {
                None
            }),
    {
        let rest = match direction {
            Direction::Read => Interests { readable: false, writable: self.writable },
            Direction::Write => Interests { readable: self.readable, writable: false },
        };
        if rest.readable || rest.writable {
            Some(rest)
        } else {
            None
        }
    }
}

/// The two slots of a registration: `Some` where a task waits for readiness
/// in that direction.
pub struct WakerMap(pub [Option<Waker>; 2]);

impl WakerMap {
    pub open spec fn slot(&self, direction: Direction) -> Option<Waker> {
        self.0@[direction.spec_index()]
    }

    pub fn new() -> (r: Self)
        ensures
            r.slot(Direction::Read) is None,
            r.slot(Direction::Write) is None,
    {
        WakerMap([None, None])
    }

    pub fn wakers(&self) -> (r: &[Option<Waker>])
        ensures
            r@ == self.0@,
            r@.len() == 2,
    {
        &self.0
    }

    pub fn set_waker(&mut self, direction: Direction, waker: Waker)
        ensures
            final(self).slot(direction) == Some(waker),
            forall|d: Direction| d != direction ==> final(self).slot(d) == old(self).slot(d),
    {
        let i = direction.index();
        self.0[i] = Some(waker);
    }
}

} // verus!
