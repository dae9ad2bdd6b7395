//! Settings of the runtime: the number of task threads and of blocking
//! threads, each defaulting to the number of available CPUs.
use vstd::prelude::*;

verus! {

/// Relies on num_cpus::get: the number of CPUs available to this process,
/// which its documentation says is always at least 1.
#[verifier::external_body]
fn default_thread_count() -> (r: usize)
    ensures
        r >= 1,
{
    num_cpus::get()
}

/// The thread counts a runtime is built with.
#[derive(Clone, Copy, PartialEq, Eq, Structural, Debug)]
pub struct ThreadCounts {
    pub task_threads: usize,
    pub blocking_threads: usize,
}

/// Builder of the runtime; an unset count falls back to the CPU count.
#[derive(Clone, Copy, PartialEq, Eq, Structural, Debug)]
pub struct AsynkBuilder {
    task_threads: Option<usize>,
    blocking_threads: Option<usize>,
}

/// The count that `setting` gives where the CPU count is `cpus`.
pub open spec fn resolved(setting: Option<usize>, cpus: usize) -> usize {
    match setting {
        Some(n) => n,
        None => cpus,
    }
}

impl AsynkBuilder {
    /// A count that was set is never zero.
    #[verifier::type_invariant]
    closed spec fn counts_positive(&self) -> bool {
        &&& (self.task_threads matches Some(n) ==> n >= 1)
        &&& (self.blocking_threads matches Some(n) ==> n >= 1)
    }

    /// The task-thread count that was set, if any.
    pub closed spec fn task_threads_setting(&self) -> Option<usize> {
        self.task_threads
    }

    /// The blocking-thread count that was set, if any.
    pub closed spec fn blocking_threads_setting(&self) -> Option<usize> {
        self.blocking_threads
    }

    pub fn new() -> (r: Self)
        ensures
            r.task_threads_setting() is None,
            r.blocking_threads_setting() is None,
    {
        AsynkBuilder { task_threads: None, blocking_threads: None }
    }

    /// Sets the number of threads that poll tasks.
    pub fn task_threads(self, val: usize) -> (r: Self)
        requires
            val >= 1,
        ensures
            r.task_threads_setting() == Some(val),
            r.blocking_threads_setting() == self.blocking_threads_setting(),
    {
        proof {
            use_type_invariant(&self);
        }
        AsynkBuilder { task_threads: Some(val), blocking_threads: self.blocking_threads }
    }

    /// Sets the number of threads for blocking work.
    pub fn blocking_threads(self, val: usize) -> (r: Self)
        requires
            val >= 1,
        ensures
            r.blocking_threads_setting() == Some(val),
            r.task_threads_setting() == self.task_threads_setting(),
    {
        proof {
            use_type_invariant(&self);
        }
        AsynkBuilder { task_threads: self.task_threads, blocking_threads: Some(val) }
    }

    /// The counts where `cpus` CPUs are available: a count that was set is
    /// kept, an unset one is `cpus`.
    pub fn resolve(&self, cpus: usize) -> (r: ThreadCounts)
        requires
            cpus >= 1,
        ensures
            r.task_threads == resolved(self.task_threads_setting(), cpus),
            r.blocking_threads == resolved(self.blocking_threads_setting(), cpus),
            r.task_threads >= 1,
            r.blocking_threads >= 1,
    {
        proof {
            use_type_invariant(self);
        }
        let task_threads = match self.task_threads {
            Some(n) => n,
            None => cpus,
        };
        let blocking_threads = match self.blocking_threads {
            Some(n) => n,
            None => cpus,
        };
        ThreadCounts { task_threads, blocking_threads }
    }

    /// The counts to build the runtime with, an unset count taken from the
    /// number of available CPUs.
    pub fn thread_counts(&self) -> (r: ThreadCounts)
        ensures
            exists|cpus: usize|
                cpus >= 1 && r.task_threads == resolved(self.task_threads_setting(), cpus)
                    && r.blocking_threads == resolved(self.blocking_threads_setting(), cpus),
            r.task_threads >= 1,
            r.blocking_threads >= 1,
    {
        let cpus = default_thread_count();
        self.resolve(cpus)
    }
}

impl Default for AsynkBuilder {
    fn default() -> (r: Self)
        ensures
            r.task_threads_setting() is None,
            r.blocking_threads_setting() is None,
    {
        AsynkBuilder::new()
    }
}

/// A builder with no count set.
pub fn builder() -> (r: AsynkBuilder)
    ensures
        r.task_threads_setting() is None,
        r.blocking_threads_setting() is None,
{
    AsynkBuilder::new()
}

} // verus!
