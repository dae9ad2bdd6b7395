//! The poll step of an I/O handle: one non-blocking attempt, and on
//! would-block the task's waker stored under the handle's token.
use crate::direction::Direction;
use crate::registry::{slot_replaced, same_except, RegistrationError, Registrations};
use std::task::Waker;
use vstd::prelude::*;

verus! {

/// How one non-blocking OS operation ended.
pub enum Attempt<T, E> {
    /// It completed with this value (for a read, `0` is end of stream).
    Done(T),
    /// The resource is not ready; the operation did nothing.
    WouldBlock,
    /// Any other OS error.
    Failed(E),
}

/// Error of a poll step.
pub enum IoError<E> {
    /// The OS error of the attempt, unchanged.
    Os(E),
    /// The handle's token is not in the registration table.
    Registration(RegistrationError),
}

/// Result of a poll step.
pub enum IoPoll<T, E> {
    Ready(Result<T, IoError<E>>),
    Pending,
}

/// Turns the outcome of one attempt into the poll's answer. A completed
/// attempt is ready at once, whatever its value; an OS error is handed on;
/// on would-block `waker` is stored for `direction` under `token` and the
/// poll is pending, unless the token is unknown.
pub fn poll_io<T, E>(
    table: &mut Registrations,
    token: usize,
    direction: Direction,
    waker: Waker,
    attempt: Attempt<T, E>,
) -> (r: IoPoll<T, E>)
    requires
        old(table).wf(),
    ensures
        final(table).wf(),
        match attempt {
            Attempt::Done(v) => r == IoPoll::<T, E>::Ready(Ok(v)) && final(table)@ == old(table)@,
            Attempt::Failed(e) => r == IoPoll::<T, E>::Ready(Err(IoError::Os(e)))
                && final(table)@ == old(table)@,
            Attempt::WouldBlock => if old(table)@.contains_key(token) {
                &&& r is Pending
                &&& same_except(old(table)@, final(table)@, token)
                &&& slot_replaced(
                    old(table)@[token],
                    final(table)@[token],
                    old(table)@[token].interests,
                    direction,
                    Some(waker),
                )
            } else {
                &&& r == IoPoll::<T, E>::Ready(
                    Err(IoError::Registration(RegistrationError::UnknownToken(token))),
                )
                &&& final(table)@ == old(table)@
            },
        },
{
    match attempt {
        Attempt::Done(v) => IoPoll::Ready(Ok(v)),
        Attempt::Failed(e) => IoPoll::Ready(Err(IoError::Os(e))),
        Attempt::WouldBlock => match table.set_waker(token, direction, waker) {
            Ok(()) => IoPoll::Pending,
            Err(e) => IoPoll::Ready(Err(IoError::Registration(e))),
        },
    }
}

} // verus!
