//! The outcome of racing an operation against a timer.

use vstd::prelude::*;

verus! {

/// The timer fired before the operation finished.
#[derive(Debug, Clone, Copy, PartialEq, Eq, Structural)]
pub struct TimeoutError;

/// How a race between an operation and a timer ended.
#[derive(Debug)]
pub enum Raced<T> {
    /// The operation finished first, with this output.
    Finished(T),
    /// The timer fired first; the operation was abandoned.
    Expired,
}

/// The result of a race: the operation's output if it finished first, the
/// timeout error if the timer did.
pub fn timeout_result<T>(raced: Raced<T>) -> (r: Result<T, TimeoutError>)
    ensures
        r == (match raced {
            Raced::Finished(output) => Ok::<T, TimeoutError>(output),
            Raced::Expired => Err::<T, TimeoutError>(TimeoutError),
        }),
{
    match raced {
        Raced::Finished(output) => Ok(output),
        Raced::Expired => Err(TimeoutError),
    }
}

} // verus!
