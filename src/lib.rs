//! Verified core of a small asynchronous I/O runtime: waker slots and the
//! reactor's registration table, the poll step of an I/O handle, the
//! scheduling protocol of a task and the resolution of the builder's settings.
pub mod builder;
pub mod direction;
pub mod io;
pub mod registry;
pub mod task;

pub use builder::{builder, AsynkBuilder, ThreadCounts};
pub use direction::{Direction, Interests, WakerMap};
pub use io::{poll_io, Attempt, IoError, IoPoll};
pub use registry::{Readiness, Registration, RegistrationError, Registrations};
pub use task::{BlockOnError, JoinError, JoinPoll, PollOutcome, Task, TaskRole, Wakeup};
