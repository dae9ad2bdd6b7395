//! The scheduling protocol of a task: a scheduled flag that coalesces
//! wakeups, at most one poll in flight, and a completion slot that the join
//! handle reads once.
use std::task::Waker;
use vstd::prelude::*;

verus! {

/// Whether a task was spawned, or is the one task that `block_on` drives.
#[derive(Clone, Copy, PartialEq, Eq, Structural, Debug)]
pub enum TaskRole {
    Spawned,
    BlockedOn,
}

/// How far a task has come.
#[derive(Clone, Copy, PartialEq, Eq, Structural, Debug)]
pub enum Completion {
    /// Its future has not finished.
    Running,
    /// Its future returned ready; the output waits for the join handle.
    Ready,
    /// Its future panicked.
    Panicked,
    /// The join handle has taken the result.
    Joined,
}

/// The failure a join handle reports: the task's future panicked.
#[derive(Clone, Copy, PartialEq, Eq, Structural, Debug)]
pub enum JoinError {
    Panicked,
}

/// The failure `block_on` reports: its task failed.
#[derive(Clone, Copy, PartialEq, Eq, Structural, Debug)]
pub enum BlockOnError {
    Join(JoinError),
}

impl From<JoinError> for BlockOnError {
    fn from(e: JoinError) -> (r: Self)
        ensures
            r == BlockOnError::Join(e),
    {
        BlockOnError::Join(e)
    }
}

impl vstd::std_specs::convert::FromSpecImpl<JoinError> for BlockOnError {
    open spec fn obeys_from_spec() -> bool {
        true
    }

    open spec fn from_spec(e: JoinError) -> BlockOnError {
        BlockOnError::Join(e)
    }
}

/// How one poll of a task's future ended.
pub enum PollOutcome<T> {
    Pending,
    Ready(T),
    Panicked,
}

/// A poll outcome without its value.
#[derive(Clone, Copy, PartialEq, Eq, Structural, Debug)]
pub enum PollKind {
    Pending,
    Ready,
    Panicked,
}

impl<T> PollOutcome<T> {
    pub open spec fn kind(&self) -> PollKind {
        match self {
            PollOutcome::Pending => PollKind::Pending,
            PollOutcome::Ready(_) => PollKind::Ready,
            PollOutcome::Panicked => PollKind::Panicked,
        }
    }
}

/// What a poll of a join handle gives.
pub enum JoinPoll<T> {
    Ready(Result<T, JoinError>),
    Pending,
}

/// What a waker invocation asks of its caller.
#[derive(Clone, Copy, PartialEq, Eq, Structural, Debug)]
pub struct Wakeup {
    /// Hand the task to the thread pool, to be polled once.
    pub enqueue: bool,
    /// Unpark the thread that runs `block_on`.
    pub unpark: bool,
}

/// The scheduling state of a task.
#[derive(Clone, Copy, PartialEq, Eq, Structural, Debug)]
pub struct TaskView {
    pub role: TaskRole,
    /// The task sits in the thread pool's queue, not yet picked up.
    pub scheduled: bool,
    /// A worker is polling the future.
    pub polling: bool,
    pub completion: Completion,
}

/// A step in the life of a task.
#[derive(Clone, Copy, PartialEq, Eq, Structural, Debug)]
pub enum TaskEvent {
    /// A waker of the task is invoked.
    Wake,
    /// A worker holding the task's poll lock begins its work item.
    Begin,
    /// The poll in flight returns.
    End(PollKind),
    /// The join handle is polled.
    Join,
}

pub open spec fn initial(role: TaskRole) -> TaskView {
    TaskView { role, scheduled: false, polling: false, completion: Completion::Running }
}

/// A poll is in flight only while the future has not finished.
pub open spec fn view_wf(s: TaskView) -> bool {
    s.polling ==> s.completion is Running
}

/// Whether `event` can happen in state `s`: a work item begins only where one
/// is queued and no poll is in flight; a poll ends only where one is in
/// flight; the join handle is not polled after it has taken the result.
pub open spec fn enabled(s: TaskView, event: TaskEvent) -> bool {
    match event {
        TaskEvent::Wake => true,
        TaskEvent::Begin => s.scheduled && !s.polling,
        TaskEvent::End(_) => s.polling,
        TaskEvent::Join => !(s.completion is Joined),
    }
}

/// The answer to a waker invocation in state `s`.
pub open spec fn wake_action(s: TaskView) -> Wakeup {
    Wakeup {
        enqueue: s.completion is Running && !s.scheduled,
        unpark: s.role is BlockedOn,
    }
}

/// The state after `event`.
pub open spec fn next(s: TaskView, event: TaskEvent) -> TaskView {
    match event {
        TaskEvent::Wake => if s.completion is Running {
            TaskView { scheduled: true, ..s }
        } else {
            s
        },
        TaskEvent::Begin => TaskView { scheduled: false, polling: s.completion is Running, ..s },
        TaskEvent::End(kind) => TaskView {
            polling: false,
            completion: match kind {
                PollKind::Pending => s.completion,
                PollKind::Ready => Completion::Ready,
                PollKind::Panicked => Completion::Panicked,
            },
            ..s
        },
        TaskEvent::Join => if s.completion is Ready || s.completion is Panicked {
            TaskView { completion: Completion::Joined, ..s }
        } else {
            s
        },
    }
}

/// The state after a sequence of events.
pub open spec fn run(s: TaskView, events: Seq<TaskEvent>) -> TaskView
    decreases events.len(),
{
    if events.len() == 0 {
        s
    } else {
        next(run(s, events.drop_last()), events.last())
    }
}

/// Each event of the sequence can happen where it stands.
pub open spec fn valid_run(s: TaskView, events: Seq<TaskEvent>) -> bool {
    forall|i: int| 0 <= i < events.len() ==> enabled(#[trigger] run(s, events.take(i)), events[i])
}

/// A task and the slot its output waits in until the join handle takes it.
pub struct Task<T> {
    role: TaskRole,
    scheduled: bool,
    polling: bool,
    completion: Completion,
    output: Option<T>,
    join_waker: Option<Waker>,
}

impl<T> View for Task<T> {
    type V = TaskView;

    closed spec fn view(&self) -> TaskView {
        TaskView {
            role: self.role,
            scheduled: self.scheduled,
            polling: self.polling,
            completion: self.completion,
        }
    }
}

impl<T> Task<T> {
    /// The output that waits for the join handle.
    pub closed spec fn output(&self) -> Option<T> {
        self.output
    }

    /// The waker of the join handle that waits for the result.
    pub closed spec fn join_waker(&self) -> Option<Waker> {
        self.join_waker
    }

    /// The state is consistent, and an output is held exactly while the task
    /// is ready and not joined.
    pub closed spec fn wf(&self) -> bool {
        &&& view_wf(self@)
        &&& (self.output is Some <==> self.completion is Ready)
    }

    pub fn new(role: TaskRole) -> (r: Self)
        ensures
            r.wf(),
            r@ == initial(role),
            r.join_waker() is None,
    {
        Task {
            role,
            scheduled: false,
            polling: false,
            completion: Completion::Running,
            output: None,
            join_waker: None,
        }
    }

    pub fn role(&self) -> (r: TaskRole)
        ensures
            r == self@.role,
    {
        self.role
    }

    pub fn is_scheduled(&self) -> (r: bool)
        ensures
            r == self@.scheduled,
    {
        self.scheduled
    }

    pub fn is_polling(&self) -> (r: bool)
        ensures
            r == self@.polling,
    {
        self.polling
    }

    pub fn completion(&self) -> (r: Completion)
        ensures
            r == self@.completion,
    {
        self.completion
    }

    /// A waker of the task is invoked: an unfinished task that is not yet
    /// scheduled becomes scheduled and must be enqueued; otherwise the wakeup
    /// coalesces with the queued item.
    pub fn wake(&mut self) -> (r: Wakeup)
        requires
            old(self).wf(),
        ensures
            final(self).wf(),
            final(self)@ == next(old(self)@, TaskEvent::Wake),
            r == wake_action(old(self)@),
            final(self).output() == old(self).output(),
            final(self).join_waker() == old(self).join_waker(),
    {
        let running = match self.completion {
            Completion::Running => true,
            _ => false,
        };
        let enqueue = running && !self.scheduled;
        if running {
            self.scheduled = true;
        }
        let unpark = match self.role {
            TaskRole::BlockedOn => true,
            TaskRole::Spawned => false,
        };
        Wakeup { enqueue, unpark }
    }

    /// A worker that holds the task's poll lock begins its work item: the
    /// scheduled flag is cleared before the poll. Returns whether to poll the
    /// future; a finished task is not polled again.
    pub fn begin_poll(&mut self) -> (r: bool)
        requires
            old(self).wf(),
            enabled(old(self)@, TaskEvent::Begin),
        ensures
            final(self).wf(),
            final(self)@ == next(old(self)@, TaskEvent::Begin),
            r == (old(self)@.completion is Running),
            final(self).output() == old(self).output(),
            final(self).join_waker() == old(self).join_waker(),
    {
        self.scheduled = false;
        let running = match self.completion {
            Completion::Running => true,
            _ => false,
        };
        self.polling = running;
        running
    }

    /// The poll in flight returned. A ready output is kept for the join
    /// handle; where the task finished, the join handle's waker is handed
    /// back to be invoked.
    pub fn end_poll(&mut self, outcome: PollOutcome<T>) -> (r: Option<Waker>)
        requires
            old(self).wf(),
            enabled(old(self)@, TaskEvent::End(outcome.kind())),
        ensures
            final(self).wf(),
            final(self)@ == next(old(self)@, TaskEvent::End(outcome.kind())),
            outcome matches PollOutcome::Ready(v) ==> final(self).output() == Some(v),
            outcome is Pending ==> r is None && final(self).join_waker() == old(self).join_waker(),
            !(outcome is Pending) ==> r == old(self).join_waker() && final(self).join_waker() is None,
    {
        self.polling = false;
        match outcome {
            PollOutcome::Pending => None,
            PollOutcome::Ready(v) => {
                self.completion = Completion::Ready;
                self.output = Some(v);
                self.join_waker.take()
            },
            PollOutcome::Panicked => {
                self.completion = Completion::Panicked;
                self.join_waker.take()
            },
        }
    }

    /// The join handle is polled with `waker`. Ready, with the output or the
    /// join error, once the future has returned ready or panicked; otherwise
    /// pending, with `waker` kept to be invoked on completion.
    pub fn poll_join(&mut self, waker: Waker) -> (r: JoinPoll<T>)
        requires
            old(self).wf(),
            enabled(old(self)@, TaskEvent::Join),
        ensures
            final(self).wf(),
            final(self)@ == next(old(self)@, TaskEvent::Join),
            old(self)@.completion is Running ==> r is Pending && final(self).join_waker() == Some(
                waker,
            ),
            old(self)@.completion is Ready ==> r == JoinPoll::Ready(
                Ok::<T, JoinError>(old(self).output()->Some_0),
            ),
            old(self)@.completion is Panicked ==> r == JoinPoll::<T>::Ready(
                Err(JoinError::Panicked),
            ),
    {
        match self.completion {
            Completion::Running => {
                self.join_waker = Some(waker);
                JoinPoll::Pending
            },
            Completion::Ready => {
                self.completion = Completion::Joined;
                match self.output.take() {
                    Some(v) => JoinPoll::Ready(Ok(v)),
                    None => JoinPoll::Pending,
                }
            },
            _ => {
                self.completion = Completion::Joined;
                JoinPoll::Ready(Err(JoinError::Panicked))
            },
        }
    }
}

/// One more event extends the run by one step.
proof fn lemma_run_step(s: TaskView, events: Seq<TaskEvent>, n: int)
    requires
        0 <= n < events.len(),
    ensures
        run(s, events.take(n + 1)) == next(run(s, events.take(n)), events[n]),
{
    assert(events.take(n + 1).drop_last() =~= events.take(n));
}

/// The whole sequence is its longest prefix.
proof fn lemma_run_all(s: TaskView, events: Seq<TaskEvent>)
    ensures
        run(s, events.take(events.len() as int)) == run(s, events),
{
    assert(events.take(events.len() as int) =~= events);
}

/// Every state of a valid run from a consistent state is consistent.
proof fn lemma_view_wf(s: TaskView, events: Seq<TaskEvent>, n: int)
    requires
        view_wf(s),
        valid_run(s, events),
        0 <= n <= events.len(),
    ensures
        view_wf(run(s, events.take(n))),
    decreases n,
{
    if n == 0 {
        assert(events.take(0) =~= Seq::<TaskEvent>::empty());
    } else {
        lemma_view_wf(s, events, n - 1);
        lemma_run_step(s, events, n - 1);
    }
}

/// The scan behind the law on missed wakeups: up to `n`, either a work item
/// begun after the pending return at `i` polled the future, or none began and
/// the task is unfinished, not being polled, and scheduled once the wake at
/// `j` has happened.
proof fn lemma_wake_scan(s: TaskView, events: Seq<TaskEvent>, i: int, j: int, n: int)
    requires
        view_wf(s),
        valid_run(s, events),
        0 <= i < j < events.len(),
        events[i] == TaskEvent::End(PollKind::Pending),
        events[j] == TaskEvent::Wake,
        i < n <= events.len(),
    ensures
        (exists|k: int|
            i < k < n && events[k] == TaskEvent::Begin && (#[trigger] run(
                s,
                events.take(k),
            )).completion is Running) || {
            let t = run(s, events.take(n));
            &&& !t.polling
            &&& t.completion is Running
            &&& (n > j ==> t.scheduled)
            &&& forall|k: int| i < k < n ==> events[k] != TaskEvent::Begin
        },
    decreases n,
{
    lemma_view_wf(s, events, i);
    if n == i + 1 {
        lemma_run_step(s, events, i);
    } else {
        lemma_wake_scan(s, events, i, j, n - 1);
        lemma_run_step(s, events, n - 1);
        let prev = run(s, events.take(n - 1));
        assert(enabled(prev, events[n - 1]));
        if exists|k: int|
            i < k < n - 1 && events[k] == TaskEvent::Begin && (#[trigger] run(
                s,
                events.take(k),
            )).completion is Running {
            let k = choose|k: int|
                i < k < n - 1 && events[k] == TaskEvent::Begin && (#[trigger] run(
                    s,
                    events.take(k),
                )).completion is Running;
            assert(i < k < n && events[k] == TaskEvent::Begin && run(
                s,
                events.take(k),
            ).completion is Running);
        } else if events[n - 1] == TaskEvent::Begin {
            assert(run(s, events.take(n - 1)).completion is Running);
        }
    }
}

/// No missed wakeup: where a poll of the task returns pending and a waker of
/// the task is invoked later, the task is polled again after that pending
/// return, or it is still scheduled, with a work item queued that will poll it.
pub proof fn lemma_no_missed_wakeup(s: TaskView, events: Seq<TaskEvent>, i: int, j: int)
    requires
        view_wf(s),
        valid_run(s, events),
        0 <= i < j < events.len(),
        events[i] == TaskEvent::End(PollKind::Pending),
        events[j] == TaskEvent::Wake,
    ensures
        (exists|k: int|
            i < k < events.len() && events[k] == TaskEvent::Begin && (#[trigger] run(
                s,
                events.take(k),
            )).completion is Running) || (run(s, events).scheduled && run(
            s,
            events,
        ).completion is Running),
{
    lemma_wake_scan(s, events, i, j, events.len() as int);
    lemma_run_all(s, events);
}

/// The scan behind the law on exclusive polls: from a poll that began at `i`
/// up to `n`, either that poll has returned or it is still in flight.
proof fn lemma_poll_scan(s: TaskView, events: Seq<TaskEvent>, i: int, n: int)
    requires
        view_wf(s),
        valid_run(s, events),
        0 <= i < n <= events.len(),
        events[i] == TaskEvent::Begin,
        run(s, events.take(i)).completion is Running,
    ensures
        (exists|m: int| i < m < n && #[trigger] events[m] is End) || run(
            s,
            events.take(n),
        ).polling,
    decreases n,
{
    if n == i + 1 {
        lemma_run_step(s, events, i);
    } else {
        lemma_poll_scan(s, events, i, n - 1);
        lemma_run_step(s, events, n - 1);
        let prev = run(s, events.take(n - 1));
        assert(enabled(prev, events[n - 1]));
        if exists|m: int| i < m < n - 1 && #[trigger] events[m] is End {
            let m = choose|m: int| i < m < n - 1 && #[trigger] events[m] is End;
            assert(i < m < n && events[m] is End);
        } else if events[n - 1] is End {
            assert(i < n - 1 < n && events[n - 1] is End);
        }
    }
}

/// At most one poll at a time: between two work items that both poll the
/// future, the first poll returns.
pub proof fn lemma_exclusive_polls(s: TaskView, events: Seq<TaskEvent>, i: int, k: int)
    requires
        view_wf(s),
        valid_run(s, events),
        0 <= i < k < events.len(),
        events[i] == TaskEvent::Begin,
        events[k] == TaskEvent::Begin,
        run(s, events.take(i)).completion is Running,
    ensures
        exists|m: int| i < m < k && #[trigger] events[m] is End,
{
    lemma_poll_scan(s, events, i, k);
    assert(enabled(run(s, events.take(k)), events[k]));
}

/// Join ordering: from a new task, the result is available to the join
/// handle (or already taken) exactly when some poll of its future has
/// returned ready or panicked.
pub proof fn lemma_join_ordering(role: TaskRole, events: Seq<TaskEvent>, n: int)
    requires
        valid_run(initial(role), events),
        0 <= n <= events.len(),
    ensures
        !(run(initial(role), events.take(n)).completion is Running) <==> exists|m: int|
            0 <= m < n && (#[trigger] events[m] == TaskEvent::End(PollKind::Ready) || events[m]
                == TaskEvent::End(PollKind::Panicked)),
    decreases n,
{
    let s = initial(role);
    if n == 0 {
        assert(events.take(0) =~= Seq::<TaskEvent>::empty());
    } else {
        lemma_join_ordering(role, events, n - 1);
        lemma_run_step(s, events, n - 1);
        let e = events[n - 1];
        if e == TaskEvent::End(PollKind::Ready) || e == TaskEvent::End(PollKind::Panicked) {
            assert(0 <= n - 1 < n && (events[n - 1] == TaskEvent::End(PollKind::Ready)
                || events[n - 1] == TaskEvent::End(PollKind::Panicked)));
        } else {
            if exists|m: int|
                0 <= m < n && (#[trigger] events[m] == TaskEvent::End(PollKind::Ready)
                    || events[m] == TaskEvent::End(PollKind::Panicked)) {
                let m = choose|m: int|
                    0 <= m < n && (#[trigger] events[m] == TaskEvent::End(PollKind::Ready)
                        || events[m] == TaskEvent::End(PollKind::Panicked));
                assert(m != n - 1);
            }
        }
    }
}

/// The number of wakes among the first `n` events that enqueued the task.
pub open spec fn enqueued(s: TaskView, events: Seq<TaskEvent>, n: int) -> int
    decreases n,
{
    if n <= 0 {
        0
    } else {
        enqueued(s, events, n - 1) + if events[n - 1] == TaskEvent::Wake && wake_action(
            run(s, events.take(n - 1)),
        ).enqueue {
            1int
        } else {
            0int
        }
    }
}

/// The number of work items among the first `n` events that began.
pub open spec fn begun(events: Seq<TaskEvent>, n: int) -> int
    decreases n,
{
    if n <= 0 {
        0
    } else {
        begun(events, n - 1) + if events[n - 1] == TaskEvent::Begin {
            1int
        } else {
            0int
        }
    }
}

/// Wakeups coalesce: of the work items handed to the thread pool, exactly
/// one waits to begin while the task is scheduled and none otherwise, so
/// any number of wakeups during a poll adds exactly one more poll.
pub proof fn lemma_one_item_outstanding(role: TaskRole, events: Seq<TaskEvent>, n: int)
    requires
        valid_run(initial(role), events),
        0 <= n <= events.len(),
    ensures
        enqueued(initial(role), events, n) - begun(events, n) == if run(
            initial(role),
            events.take(n),
        ).scheduled {
            1int
        } else {
            0int
        },
    decreases n,
{
    let s = initial(role);
    if n == 0 {
        assert(events.take(0) =~= Seq::<TaskEvent>::empty());
    } else {
        lemma_one_item_outstanding(role, events, n - 1);
        lemma_run_step(s, events, n - 1);
        assert(enabled(run(s, events.take(n - 1)), events[n - 1]));
    }
}

} // verus!
