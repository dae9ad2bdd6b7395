use asynk::{builder, AsynkBuilder, ThreadCounts};

#[test]
fn unset_counts_fall_back_to_cpus() {
    let b = builder();
    assert_eq!(b.resolve(8), ThreadCounts { task_threads: 8, blocking_threads: 8 });
}

#[test]
fn set_counts_are_kept() {
    let b = AsynkBuilder::new().task_threads(3).blocking_threads(5);
    assert_eq!(b.resolve(8), ThreadCounts { task_threads: 3, blocking_threads: 5 });
    let b = AsynkBuilder::default().blocking_threads(2);
    assert_eq!(b.resolve(4), ThreadCounts { task_threads: 4, blocking_threads: 2 });
}

#[test]
fn thread_counts_use_the_machine() {
    let c = builder().thread_counts();
    assert!(c.task_threads >= 1);
    assert_eq!(c.task_threads, c.blocking_threads);
    let c = builder().task_threads(1000).thread_counts();
    assert_eq!(c.task_threads, 1000);
    assert!(c.blocking_threads >= 1);
}
