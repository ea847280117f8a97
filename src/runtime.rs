//! The cooperative runtime: its executor, the notification handle passed to
//! every step, the deadline timer and the two connection state machines.
use vstd::prelude::*;

pub mod executor;
pub mod receiver;
pub mod sender;
pub mod sleep;
pub mod waker;

verus! {

/// The outcome of one step of a computation: finished with a value, or not
/// finished yet.
#[derive(Debug, PartialEq, Eq)]
pub enum Poll<T> {
    Ready(T),
    Pending,
}

impl<T> Poll<T> {
    pub fn is_ready(&self) -> (r: bool)
        ensures
            r == self is Ready,
    {
        match self {
            Poll::Ready(_) => true,
            Poll::Pending => false,
        }
    }

    pub fn is_pending(&self) -> (r: bool)
        ensures
            r == self is Pending,
    {
        match self {
            Poll::Ready(_) => false,
            Poll::Pending => true,
        }
    }
}

/// Where a connection future stands. A future waits for the lock, works
/// while it holds it (possibly over several steps, taking the lock anew each
/// time), and ends complete or failed; an ended future is not stepped again.
#[derive(Debug, Clone, Copy, PartialEq, Eq, Structural)]
pub enum LinkState {
    AwaitingLock,
    InProgress,
    Complete,
    Failed,
}

impl LinkState {
    /// Whether the future has ended.
    pub open spec fn spec_is_terminal(self) -> bool {
        self is Complete || self is Failed
    }

    /// Whether the future has ended.
    pub fn is_terminal(&self) -> (r: bool)
        ensures
            r == self.spec_is_terminal(),
    {
        match self {
            LinkState::Complete | LinkState::Failed => true,
            _ => false,
        }
    }
}

} // verus!
