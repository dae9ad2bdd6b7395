//! The reactor's registration table: tokens mapped to an interest set and one
//! waker slot per direction, and the choice of wakers an OS event calls.
use crate::direction::{Direction, Interests, WakerMap};
use std::task::Waker;
use vstd::prelude::*;

verus! {

/// What the table keeps for one registered resource.
pub struct Registration {
    pub interests: Interests,
    pub wakers: WakerMap,
}

impl Registration {
    /// The waker that waits for readiness in `direction`, if any.
    pub open spec fn waiting(&self, direction: Direction) -> Option<Waker> {
        self.wakers.slot(direction)
    }

    /// A registration as `register` creates it: the given interests, no waker.
    pub open spec fn is_fresh(&self, interests: Interests) -> bool {
        &&& self.interests == interests
        &&& self.waiting(Direction::Read) is None
        &&& self.waiting(Direction::Write) is None
    }
}

/// `after` is `before` with `waker` in the slot of `direction`, the other
/// slot kept, and the interests set to `interests`.
pub open spec fn slot_replaced(
    before: Registration,
    after: Registration,
    interests: Interests,
    direction: Direction,
    waker: Option<Waker>,
) -> bool {
    &&& after.interests == interests
    &&& after.waiting(direction) == waker
    &&& forall|d: Direction| d != direction ==> after.waiting(d) == before.waiting(d)
}

/// One readiness event of the OS poller.
#[derive(Clone, Copy, PartialEq, Eq, Structural, Debug)]
pub struct Readiness {
    pub token: usize,
    pub readable: bool,
    pub writable: bool,
}

/// Failure of an operation on the table.
#[derive(Clone, Copy, PartialEq, Eq, Structural, Debug)]
pub enum RegistrationError {
    /// No live registration has this token.
    UnknownToken(usize),
}

/// `a` and `b` hold the same tokens and agree on every token but `token`.
pub open spec fn same_except(
    a: Map<usize, Registration>,
    b: Map<usize, Registration>,
    token: usize,
) -> bool {
    &&& a.dom() == b.dom()
    &&& forall|k: usize| k != token && #[trigger] a.contains_key(k) ==> b[k] == a[k]
}

/// The wakers that one event calls, read waker first.
pub open spec fn wakers_for(table: Map<usize, Registration>, event: Readiness) -> Seq<Waker> {
    if table.contains_key(event.token) {
        let reg = table[event.token];
        let read = match reg.waiting(Direction::Read) {
            Some(w) if event.readable => seq![w],
            _ => Seq::empty(),
        };
        let write = match reg.waiting(Direction::Write) {
            Some(w) if event.writable => seq![w],
            _ => Seq::empty(),
        };
        read + write
    } else {
        Seq::empty()
    }
}

/// The wakers that a batch of events calls, in the order of the events.
pub open spec fn wakers_for_all(table: Map<usize, Registration>, events: Seq<Readiness>) -> Seq<
    Waker,
>
    decreases events.len(),
{
    if events.len() == 0 {
        Seq::empty()
    } else {
        wakers_for_all(table, events.drop_last()) + wakers_for(table, events.last())
    }
}

/// An operation on the registration table.
pub enum TableOp {
    Register(Interests),
    SetWaker(usize, Direction, Waker),
    AddDirection(usize, Direction, Waker),
    RemoveDirection(usize, Direction),
    Deregister(usize),
}

/// `post` is a table that `op` may leave of `pre`.
pub open spec fn table_step(
    pre: Map<usize, Registration>,
    post: Map<usize, Registration>,
    op: TableOp,
) -> bool {
    match op {
        TableOp::Register(interests) => exists|t: usize|
            !pre.contains_key(t) && #[trigger] post.contains_key(t) && post[t].is_fresh(interests)
                && post == pre.insert(t, post[t]),
        TableOp::SetWaker(t, d, w) => if pre.contains_key(t) {
            same_except(pre, post, t) && slot_replaced(pre[t], post[t], pre[t].interests, d, Some(w))
        } else {
            post == pre
        },
        TableOp::AddDirection(t, d, w) => if pre.contains_key(t) {
            same_except(pre, post, t) && slot_replaced(
                pre[t],
                post[t],
                pre[t].interests.spec_add(d),
                d,
                Some(w),
            )
        } else {
            post == pre
        },
        TableOp::RemoveDirection(t, d) => if !pre.contains_key(t) {
            post == pre
        } else if pre[t].interests.spec_remove(d).wf() {
            same_except(pre, post, t) && slot_replaced(
                pre[t],
                post[t],
                pre[t].interests.spec_remove(d),
                d,
                None,
            )
        } else {
            post == pre.remove(t)
        },
        TableOp::Deregister(t) => post == pre.remove(t),
    }
}

/// `op` names `token`.
pub open spec fn names(op: TableOp, token: usize) -> bool {
    match op {
        TableOp::Register(_) => false,
        TableOp::SetWaker(t, _, _) => t == token,
        TableOp::AddDirection(t, _, _) => t == token,
        TableOp::RemoveDirection(t, _) => t == token,
        TableOp::Deregister(t) => t == token,
    }
}

/// `op`, applied to `pre`, ends the registration under `token`.
pub open spec fn ends(op: TableOp, pre: Map<usize, Registration>, token: usize) -> bool {
    match op {
        TableOp::Deregister(t) => t == token,
        TableOp::RemoveDirection(t, d) => t == token && pre.contains_key(t)
            && !pre[t].interests.spec_remove(d).wf(),
        _ => false,
    }
}

/// Token stability: a token, once registered, stays live and keeps its
/// registration through every operation that does not end it; an operation
/// that does not name the token leaves its registration as it was.
pub proof fn lemma_token_stable(
    tables: Seq<Map<usize, Registration>>,
    ops: Seq<TableOp>,
    token: usize,
)
    requires
        tables.len() == ops.len() + 1,
        forall|i: int| 0 <= i < ops.len() ==> table_step(tables[i], tables[i + 1], #[trigger] ops[i]),
        tables[0].contains_key(token),
        forall|i: int| 0 <= i < ops.len() ==> !ends(#[trigger] ops[i], tables[i], token),
    ensures
        forall|i: int| 0 <= i < tables.len() ==> (#[trigger] tables[i]).contains_key(token),
        forall|i: int|
            0 <= i < ops.len() && !names(#[trigger] ops[i], token) ==> tables[i + 1][token]
                == tables[i][token],
{
    assert forall|i: int| 0 <= i < tables.len() implies (#[trigger] tables[i]).contains_key(
        token,
    ) by {
        lemma_token_live(tables, ops, token, i);
    }
    assert forall|i: int| 0 <= i < ops.len() && !names(#[trigger] ops[i], token) implies tables[i
        + 1][token] == tables[i][token] by {
        lemma_token_live(tables, ops, token, i);
        assert(table_step(tables[i], tables[i + 1], ops[i]));
        if let TableOp::Register(interests) = ops[i] {
            let t = choose|t: usize|
                !tables[i].contains_key(t) && #[trigger] tables[i + 1].contains_key(t)
                    && tables[i + 1][t].is_fresh(interests) && tables[i + 1] == tables[i].insert(
                    t,
                    tables[i + 1][t],
                );
            assert(t != token);
        }
    }
}

proof fn lemma_token_live(
    tables: Seq<Map<usize, Registration>>,
    ops: Seq<TableOp>,
    token: usize,
    n: int,
)
    requires
        tables.len() == ops.len() + 1,
        forall|i: int| 0 <= i < ops.len() ==> table_step(tables[i], tables[i + 1], #[trigger] ops[i]),
        tables[0].contains_key(token),
        forall|i: int| 0 <= i < ops.len() ==> !ends(#[trigger] ops[i], tables[i], token),
        0 <= n < tables.len(),
    ensures
        tables[n].contains_key(token),
    decreases n,
{
    if n > 0 {
        lemma_token_live(tables, ops, token, n - 1);
        assert(table_step(tables[n - 1], tables[n], ops[n - 1]));
        assert(!ends(ops[n - 1], tables[n - 1], token));
        if let TableOp::Register(interests) = ops[n - 1] {
            let t = choose|t: usize|
                !tables[n - 1].contains_key(t) && #[trigger] tables[n].contains_key(t)
                    && tables[n][t].is_fresh(interests) && tables[n] == tables[n - 1].insert(
                    t,
                    tables[n][t],
                );
            assert(tables[n].contains_key(token));
        }
    }
}

/// Deregistration completeness: once `token` is deregistered it is no longer
/// in the table, an event for it calls no waker, and a batch of events calls
/// the wakers it would call without the events for it.
pub proof fn lemma_deregistered_silent(
    pre: Map<usize, Registration>,
    post: Map<usize, Registration>,
    token: usize,
    events: Seq<Readiness>,
)
    requires
        table_step(pre, post, TableOp::Deregister(token)),
    ensures
        !post.contains_key(token),
        forall|e: Readiness| e.token == token ==> #[trigger] wakers_for(post, e) == Seq::<
            Waker,
        >::empty(),
        wakers_for_all(post, events) == wakers_for_all(
            post,
            events.filter(|e: Readiness| e.token != token),
        ),
    decreases events.len(),
{
    let keep = |e: Readiness| e.token != token;
    reveal(Seq::filter);
    if events.len() > 0 {
        lemma_deregistered_silent(pre, post, token, events.drop_last());
        let rest = events.drop_last().filter(keep);
        if keep(events.last()) {
            assert(events.filter(keep) == rest.push(events.last()));
            assert(rest.push(events.last()).drop_last() =~= rest);
        } else {
            assert(wakers_for(post, events.last()) =~= Seq::<Waker>::empty());
            assert(wakers_for_all(post, events) =~= wakers_for_all(post, events.drop_last()));
        }
    }
}

/// The wakers that a sequence of references points to.
pub open spec fn deref_all(refs: Seq<&Waker>) -> Seq<Waker> {
    refs.map_values(|w: &Waker| *w)
}

/// Slab of registrations; a token is the index of its slot. A freed slot is
/// taken again by a later registration, never while its registration lives.
pub struct Registrations {
    entries: Vec<Option<Registration>>,
    free: Vec<usize>,
}

impl View for Registrations {
    type V = Map<usize, Registration>;

    closed spec fn view(&self) -> Map<usize, Registration> {
        Map::new(
            |k: usize| k < self.entries.len() && self.entries@[k as int] is Some,
            |k: usize| self.entries@[k as int]->Some_0,
        )
    }
}

impl Registrations {
    /// Every slot on the free list is empty, and none is listed twice.
    pub closed spec fn wf(&self) -> bool {
        &&& self.free@.no_duplicates()
        &&& forall|i: int|
            0 <= i < self.free.len() ==> #[trigger] self.free@[i] < self.entries.len()
                && self.entries@[self.free@[i] as int] is None
    }

    pub fn new() -> (r: Self)
        ensures
            r.wf(),
            r@ == Map::<usize, Registration>::empty(),
    {
        let r = Registrations { entries: Vec::new(), free: Vec::new() };
        assert(r@ =~= Map::<usize, Registration>::empty());
        r
    }

    pub fn contains(&self, token: usize) -> (r: bool)
        ensures
            r == self@.contains_key(token),
    {
        token < self.entries.len() && self.entries[token].is_some()
    }

    /// The registration under `token`, if it is live.
    pub fn registration(&self, token: usize) -> (r: Option<&Registration>)
        ensures
            r matches Some(reg) ==> self@.contains_key(token) && *reg == self@[token],
            r is None ==> !self@.contains_key(token),
    {
        if token < self.entries.len() {
            match &self.entries[token] {
                Some(reg) => Some(reg),
                None => None,
            }
        } else {
            None
        }
    }

    /// Adds a registration with `interests` and empty waker slots under a
    /// token that no live registration holds.
    pub fn register(&mut self, interests: Interests) -> (token: usize)
        requires
            old(self).wf(),
            interests.wf(),
        ensures
            final(self).wf(),
            !old(self)@.contains_key(token),
            final(self)@.contains_key(token),
            final(self)@[token].is_fresh(interests),
            final(self)@ == old(self)@.insert(token, final(self)@[token]),
            table_step(old(self)@, final(self)@, TableOp::Register(interests)),
    {
        let reg = Registration { interests, wakers: WakerMap::new() };
        match self.free.pop() {
            Some(token) => {
                proof {
                    assert(self.free@ == old(self).free@.drop_last());
                    assert(old(self).free@[old(self).free.len() - 1] == token);
                }
                self.entries.set(token, Some(reg));
                proof {
                    assert forall|i: int| 0 <= i < self.free.len() implies #[trigger] self.free@[i]
                        < self.entries.len() && self.entries@[self.free@[i] as int] is None by {
                        assert(old(self).free@[i] == self.free@[i]);
                        assert(self.free@[i] != token);
                    }
                    assert(self.free@.no_duplicates());
                    assert(self@ =~= old(self)@.insert(token, self@[token]));
                    assert(self@.contains_key(token));
                }
                token
            },
            None => {
                let token = self.entries.len();
                self.entries.push(Some(reg));
                proof {
                    assert(self@ =~= old(self)@.insert(token, self@[token]));
                    assert(self@.contains_key(token));
                }
                token
            },
        }
    }

    /// Puts `waker` in the slot of `direction` and sets the interests, in the
    /// live registration under `token`.
    fn replace_slot(
        &mut self,
        token: usize,
        interests: Interests,
        direction: Direction,
        waker: Option<Waker>,
    )
        requires
            old(self).wf(),
            old(self)@.contains_key(token),
        ensures
            final(self).wf(),
            same_except(old(self)@, final(self)@, token),
            slot_replaced(old(self)@[token], final(self)@[token], interests, direction, waker),
    {
        let ghost before = self@;
        let i = direction.index();
        match &mut self.entries[token] {
            Some(reg) => {
                reg.interests = interests;
                reg.wakers.0[i] = waker;
            },
            None => {},
        }
        proof {
            assert(self.free@ == old(self).free@);
            assert forall|d: Direction| d != direction implies self@[token].waiting(d)
                == before[token].waiting(d) by {
                assert(d.spec_index() != direction.spec_index());
            }
            assert(self@.dom() =~= before.dom());
        }
    }

    /// Empties the slot of the live registration under `token`.
    fn release(&mut self, token: usize)
        requires
            old(self).wf(),
            old(self)@.contains_key(token),
        ensures
            final(self).wf(),
            final(self)@ == old(self)@.remove(token),
    {
        self.entries.set(token, None);
        self.free.push(token);
        proof {
            assert forall|i: int| 0 <= i < self.free.len() implies #[trigger] self.free@[i]
                < self.entries.len() && self.entries@[self.free@[i] as int] is None by {
                if i < old(self).free.len() {
                    assert(old(self).free@[i] == self.free@[i]);
                }
            }
            assert forall|i: int, j: int|
                0 <= i < self.free.len() && 0 <= j < self.free.len() && i != j implies
                self.free@[i] != self.free@[j] by {
                if i < old(self).free.len() && j < old(self).free.len() {
                    assert(old(self).free@[i] == self.free@[i]);
                    assert(old(self).free@[j] == self.free@[j]);
                } else if i < old(self).free.len() {
                    assert(old(self).free@[i] == self.free@[i]);
                } else if j < old(self).free.len() {
                    assert(old(self).free@[j] == self.free@[j]);
                }
            }
            assert(self@ =~= old(self)@.remove(token));
        }
    }

    /// Stores `waker` in the slot of `direction` of the registration under
    /// `token`, replacing the waker that was there.
    pub fn set_waker(&mut self, token: usize, direction: Direction, waker: Waker) -> (r: Result<
        (),
        RegistrationError,
    >)
        requires
            old(self).wf(),
        ensures
            final(self).wf(),
            r is Ok <==> old(self)@.contains_key(token),
            r is Err ==> r == Err::<(), _>(RegistrationError::UnknownToken(token)) && final(self)@
                == old(self)@,
            r is Ok ==> same_except(old(self)@, final(self)@, token) && slot_replaced(
                old(self)@[token],
                final(self)@[token],
                old(self)@[token].interests,
                direction,
                Some(waker),
            ),
            table_step(old(self)@, final(self)@, TableOp::SetWaker(token, direction, waker)),
    {
        match self.registration(token) {
            Some(reg) => {
                let interests = reg.interests;
                self.replace_slot(token, interests, direction, Some(waker));
                Ok(())
            },
            None => Err(RegistrationError::UnknownToken(token)),
        }
    }

    /// Adds `direction` to the interests of the registration under `token`
    /// and stores `waker` for it. Returns the interests to register with the
    /// OS poller; the token stays the same.
    pub fn add_direction_for_token(
        &mut self,
        token: usize,
        direction: Direction,
        waker: Waker,
    ) -> (r: Result<Interests, RegistrationError>)
        requires
            old(self).wf(),
        ensures
            final(self).wf(),
            r is Ok <==> old(self)@.contains_key(token),
            r is Err ==> r == Err::<Interests, _>(RegistrationError::UnknownToken(token))
                && final(self)@ == old(self)@,
            r matches Ok(interests) ==> {
                &&& interests == old(self)@[token].interests.spec_add(direction)
                &&& same_except(old(self)@, final(self)@, token)
                &&& slot_replaced(
                    old(self)@[token],
                    final(self)@[token],
                    interests,
                    direction,
                    Some(waker),
                )
            },
            table_step(old(self)@, final(self)@, TableOp::AddDirection(token, direction, waker)),
    {
        match self.registration(token) {
            Some(reg) => {
                let interests = reg.interests.add(direction);
                self.replace_slot(token, interests, direction, Some(waker));
                Ok(interests)
            },
            None => Err(RegistrationError::UnknownToken(token)),
        }
    }

    /// Removes `direction` from the interests of the registration under
    /// `token` and drops its waker. Returns the interests left, or `None`
    /// where none is left and the registration has been removed.
    pub fn remove_direction_for_token(&mut self, token: usize, direction: Direction) -> (r: Result<
        Option<Interests>,
        RegistrationError,
    >)
        requires
            old(self).wf(),
        ensures
            final(self).wf(),
            r is Ok <==> old(self)@.contains_key(token),
            r is Err ==> r == Err::<Option<Interests>, _>(RegistrationError::UnknownToken(token))
                && final(self)@ == old(self)@,
            r matches Ok(Some(interests)) ==> {
                &&& interests == old(self)@[token].interests.spec_remove(direction)
                &&& interests.wf()
                &&& same_except(old(self)@, final(self)@, token)
                &&& slot_replaced(old(self)@[token], final(self)@[token], interests, direction, None)
            },
            r matches Ok(None) ==> {
                &&& !old(self)@[token].interests.spec_remove(direction).wf()
                &&& final(self)@ == old(self)@.remove(token)
            },
            table_step(old(self)@, final(self)@, TableOp::RemoveDirection(token, direction)),
    {
        match self.registration(token) {
            Some(reg) => {
                match reg.interests.remove(direction) {
                    Some(interests) => {
                        self.replace_slot(token, interests, direction, None);
                        Ok(Some(interests))
                    },
                    None => {
                        self.release(token);
                        Ok(None)
                    },
                }
            },
            None => Err(RegistrationError::UnknownToken(token)),
        }
    }

    /// Drops the registration under `token`; the token is no longer valid.
    pub fn deregister(&mut self, token: usize) -> (r: Result<(), RegistrationError>)
        requires
            old(self).wf(),
        ensures
            final(self).wf(),
            r is Ok <==> old(self)@.contains_key(token),
            r is Err ==> r == Err::<(), _>(RegistrationError::UnknownToken(token)),
            final(self)@ == old(self)@.remove(token),
            table_step(old(self)@, final(self)@, TableOp::Deregister(token)),
    {
        if self.contains(token) {
            self.release(token);
            Ok(())
        } else {
            assert(self@ =~= self@.remove(token));
            Err(RegistrationError::UnknownToken(token))
        }
    }

    /// The wakers that `events` call, in order: for each event whose token is
    /// live, its read waker where it reports read readiness, then its write
    /// waker where it reports write readiness. Events of unknown tokens are
    /// passed over.
    pub fn dispatch<'a>(&'a self, events: &[Readiness]) -> (r: Vec<&'a Waker>)
        ensures
            deref_all(r@) == wakers_for_all(self@, events@),
    {
        let mut out: Vec<&'a Waker> = Vec::new();
        let mut i: usize = 0;
        while i < events.len()
            invariant
                i <= events@.len(),
                deref_all(out@) == wakers_for_all(self@, events@.subrange(0, i as int)),
            decreases events.len() - i,
        {
            let event = events[i];
            let ghost before = deref_all(out@);
            if let Some(reg) = self.registration(event.token) {
                if event.readable {
                    if let Some(w) = &reg.wakers.0[0] {
                        out.push(w);
                    }
                }
                if event.writable {
                    if let Some(w) = &reg.wakers.0[1] {
                        out.push(w);
                    }
                }
            }
            proof {
                let prefix = events@.subrange(0, i as int + 1);
                assert(prefix.drop_last() =~= events@.subrange(0, i as int));
                assert(prefix.last() == event);
                assert(deref_all(out@) =~= before + wakers_for(self@, event));
            }
            i += 1;
        }
        proof {
            assert(events@.subrange(0, events@.len() as int) =~= events@);
        }
        out
    }
}

} // verus!
