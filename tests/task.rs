use asynk::task::Completion;
use asynk::{BlockOnError, JoinError, JoinPoll, PollOutcome, Task, TaskRole, Wakeup};
use std::sync::atomic::{AtomicUsize, Ordering};
use std::sync::Arc;
use std::task::{Wake, Waker};

struct Counter(AtomicUsize);

impl Wake for Counter {
    fn wake(self: Arc<Self>) {
        self.0.fetch_add(1, Ordering::SeqCst);
    }
}

fn counting_waker() -> (Arc<Counter>, Waker) {
    let c = Arc::new(Counter(AtomicUsize::new(0)));
    (c.clone(), Waker::from(c))
}

fn enqueue() -> Wakeup {
    Wakeup { enqueue: true, unpark: false }
}

fn coalesced() -> Wakeup {
    Wakeup { enqueue: false, unpark: false }
}

#[test]
fn first_wake_enqueues_and_later_ones_coalesce() {
    let mut t: Task<u32> = Task::new(TaskRole::Spawned);
    assert_eq!(t.wake(), enqueue());
    assert_eq!(t.wake(), coalesced());
    assert_eq!(t.wake(), coalesced());
    assert!(t.begin_poll());
    assert!(t.end_poll(PollOutcome::Pending).is_none());
    assert_eq!(t.wake(), enqueue());
}

#[test]
fn wake_during_poll_causes_exactly_one_repoll() {
    let mut t: Task<u32> = Task::new(TaskRole::Spawned);
    assert_eq!(t.wake(), enqueue());
    assert!(t.begin_poll());
    // Wakeups while the poll is in flight: one new work item, no more.
    assert_eq!(t.wake(), enqueue());
    assert_eq!(t.wake(), coalesced());
    t.end_poll(PollOutcome::Pending);
    // The queued item polls again.
    assert!(t.begin_poll());
    t.end_poll(PollOutcome::Pending);
    // Nothing more is owed: the next wake enqueues anew.
    assert_eq!(t.wake(), enqueue());
}

#[test]
fn wake_after_pending_return_schedules_a_poll() {
    let mut t: Task<u32> = Task::new(TaskRole::Spawned);
    t.wake();
    t.begin_poll();
    t.end_poll(PollOutcome::Pending);
    assert_eq!(t.wake(), enqueue());
    assert!(t.begin_poll());
}

#[test]
fn finished_task_is_not_polled_again() {
    let mut t: Task<u32> = Task::new(TaskRole::Spawned);
    t.wake();
    t.begin_poll();
    assert_eq!(t.wake(), enqueue());
    t.end_poll(PollOutcome::Ready(7));
    // The item queued during the last poll is skipped.
    assert!(!t.begin_poll());
    assert_eq!(t.wake(), coalesced());
}

#[test]
fn join_resolves_only_after_ready() {
    let (c, jw) = counting_waker();
    let mut t: Task<String> = Task::new(TaskRole::Spawned);
    assert!(matches!(t.poll_join(jw.clone()), JoinPoll::Pending));
    t.wake();
    t.begin_poll();
    assert!(t.end_poll(PollOutcome::Pending).is_none());
    assert!(matches!(t.poll_join(jw.clone()), JoinPoll::Pending));
    t.wake();
    t.begin_poll();
    let to_wake = t.end_poll(PollOutcome::Ready("done".to_string()));
    to_wake.unwrap().wake();
    assert_eq!(c.0.load(Ordering::SeqCst), 1);
    match t.poll_join(jw) {
        JoinPoll::Ready(Ok(s)) => assert_eq!(s, "done"),
        _ => panic!("join did not resolve"),
    }
    assert_eq!(t.completion(), Completion::Joined);
}

#[test]
fn panicked_task_gives_join_error() {
    let (_c, jw) = counting_waker();
    let mut t: Task<u32> = Task::new(TaskRole::Spawned);
    t.wake();
    t.begin_poll();
    t.end_poll(PollOutcome::Panicked);
    match t.poll_join(jw) {
        JoinPoll::Ready(Err(e)) => {
            assert_eq!(e, JoinError::Panicked);
            assert_eq!(BlockOnError::from(e), BlockOnError::Join(JoinError::Panicked));
        }
        _ => panic!("join did not fail"),
    }
}

#[test]
fn blocked_on_waker_also_unparks() {
    let mut t: Task<u32> = Task::new(TaskRole::BlockedOn);
    assert_eq!(t.wake(), Wakeup { enqueue: true, unpark: true });
    assert_eq!(t.wake(), Wakeup { enqueue: false, unpark: true });
    t.begin_poll();
    t.end_poll(PollOutcome::Ready(1));
    // Completion still unparks the driver thread, which then reads the result.
    assert_eq!(t.wake(), Wakeup { enqueue: false, unpark: true });
}

#[test]
fn spawn_and_await_thousand_tasks() {
    let counter = AtomicUsize::new(0);
    let (_c, jw) = counting_waker();
    let mut tasks: Vec<Task<usize>> = (0..1000).map(|_| Task::new(TaskRole::Spawned)).collect();
    let mut queue = Vec::new();
    for (i, t) in tasks.iter_mut().enumerate() {
        if t.wake().enqueue {
            queue.push(i);
        }
    }
    assert_eq!(queue.len(), 1000);
    for &i in &queue {
        assert!(tasks[i].begin_poll());
        counter.fetch_add(1, Ordering::SeqCst);
        tasks[i].end_poll(PollOutcome::Ready(i));
    }
    for (i, t) in tasks.iter_mut().enumerate() {
        match t.poll_join(jw.clone()) {
            JoinPoll::Ready(Ok(v)) => assert_eq!(v, i),
            _ => panic!("join did not resolve"),
        }
    }
    assert_eq!(counter.load(Ordering::SeqCst), 1000);
}

#[test]
fn task_state_is_observable_between_steps() {
    let mut t: Task<u8> = Task::new(TaskRole::BlockedOn);
    assert_eq!(t.role(), TaskRole::BlockedOn);
    assert!(!t.is_scheduled() && !t.is_polling());
    assert_eq!(t.completion(), Completion::Running);
    t.wake();
    assert!(t.is_scheduled() && !t.is_polling());
    t.begin_poll();
    assert!(!t.is_scheduled() && t.is_polling());
    t.end_poll(PollOutcome::Panicked);
    assert!(!t.is_polling());
    assert_eq!(t.completion(), Completion::Panicked);
}
