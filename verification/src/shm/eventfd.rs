//! What the outcomes of the wakeup descriptor's system calls ask for.

use vstd::prelude::*;

verus! {

/// What a read or a write of a descriptor came to.
#[derive(Clone, Copy, Debug, PartialEq, Eq)]
pub enum IoOutcome {
    /// That many bytes.
    Moved(usize),
    /// Nothing to read, or no room to write.
    WouldBlock,
    /// A signal came first.
    Interrupted,
    /// Another error.
    Failed,
}

/// What to do next.
#[derive(Debug, PartialEq, Eq)]
pub enum IoStep<T> {
    /// It is done, with this result.
    Done(T),
    /// Once more.
    Retry,
    /// The error is the result.
    Fail,
}

/// How many bytes of a wakeup pipe are read at once.
pub const PIPE_READ_BYTES: usize = 64;

/// After a write that is to wake the reader: where there is no room, the reader
/// is behind and awake already.
pub fn after_notify(outcome: IoOutcome) -> (step: IoStep<()>)
    ensures
        step == (match outcome {
            IoOutcome::Moved(_) => IoStep::Done(()),
            IoOutcome::WouldBlock => IoStep::Done(()),
            IoOutcome::Interrupted => IoStep::Retry,
            IoOutcome::Failed => IoStep::Fail,
        }),
{
    match outcome {
        IoOutcome::Moved(_) => IoStep::Done(()),
        IoOutcome::WouldBlock => IoStep::Done(()),
        IoOutcome::Interrupted => IoStep::Retry,
        IoOutcome::Failed => IoStep::Fail,
    }
}

/// After a read of an event counter, which gave `count` if it gave anything:
/// where there is nothing, no wakeup is pending.
pub fn after_counter_read(outcome: IoOutcome, count: u64) -> (step: IoStep<u64>)
    ensures
        step == (match outcome {
            IoOutcome::Moved(_) => IoStep::Done(count),
            IoOutcome::WouldBlock => IoStep::Done(0),
            IoOutcome::Interrupted => IoStep::Retry,
            IoOutcome::Failed => IoStep::Fail,
        }),
{
    match outcome {
        IoOutcome::Moved(_) => IoStep::Done(count),
        IoOutcome::WouldBlock => IoStep::Done(0),
        IoOutcome::Interrupted => IoStep::Retry,
        IoOutcome::Failed => IoStep::Fail,
    }
}

/// How many wakeups a drain has found, and whether it goes on.
#[derive(Debug, PartialEq, Eq)]
pub struct PipeDrain {
    pub total: u64,
    pub step: IoStep<u64>,
}

/// After a read of a wakeup pipe of which `total` wakeups were read before, one
/// byte each: a read that does not fill the buffer was the last.
pub fn after_pipe_read(total: u64, outcome: IoOutcome) -> (r: PipeDrain)
    requires
        outcome matches IoOutcome::Moved(n) ==> total + n <= u64::MAX,
    ensures
        ({
            let read = match outcome {
                IoOutcome::Moved(n) => n as int,
                _ => 0,
            };
            &&& r.total == total + read
            &&& r.step == (match outcome {
                IoOutcome::Moved(n) => if n < PIPE_READ_BYTES {
                    IoStep::Done(r.total)
                } else {
                    IoStep::Retry
                },
                IoOutcome::WouldBlock => IoStep::Done(total),
                IoOutcome::Interrupted => IoStep::Retry,
                IoOutcome::Failed => IoStep::Fail,
            })
        }),
{
    match outcome {
        IoOutcome::Moved(n) => {
            let total: u64 = total + n as u64;
            if n < PIPE_READ_BYTES {
                PipeDrain { total, step: IoStep::Done(total) }
            } else {
                PipeDrain { total, step: IoStep::Retry }
            }
        },
        IoOutcome::WouldBlock => PipeDrain { total, step: IoStep::Done(total) },
        IoOutcome::Interrupted => PipeDrain { total, step: IoStep::Retry },
        IoOutcome::Failed => PipeDrain { total, step: IoStep::Fail },
    }
}

/// After a drain in a wait, `None` where it would have blocked: the wait ends
/// with the first wakeup.
pub fn after_wait_drain(drained: Option<u64>) -> (step: IoStep<u64>)
    ensures
        step == (match drained {
            Some(n) => if n == 0 {
                IoStep::Retry
            } else {
                IoStep::Done(n)
            },
            None => IoStep::Retry,
        }),
{
    match drained {
        Some(n) => if n == 0 {
            IoStep::Retry
        } else {
            IoStep::Done(n)
        },
        None => IoStep::Retry,
    }
}

} // verus!
