//! The cancel signal of a turn: one way, and heard once.

use vstd::prelude::*;

verus! {

/// Whether a turn has been asked to stop.
#[derive(Debug, Clone, Copy, PartialEq, Eq, Structural)]
pub struct CancellationToken {
    pub cancelled: bool,
}

/// A token once the signal has been delivered.
pub open spec fn signalled(t: CancellationToken) -> CancellationToken {
    CancellationToken { cancelled: true }
}

/// The signal is one way, and a second one changes nothing.
pub proof fn law_the_signal_stays(t: CancellationToken)
    ensures
        signalled(t).cancelled,
        signalled(signalled(t)) == signalled(t),
{
}

impl Default for CancellationToken {
    fn default() -> (r: Self)
        ensures
            !r.cancelled,
    {
        CancellationToken::new()
    }
}

impl CancellationToken {
    /// A token that has not been cancelled.
    pub fn new() -> (r: Self)
        ensures
            !r.cancelled,
    {
        CancellationToken { cancelled: false }
    }

    /// Delivers the signal. Answers whether the waiters are to be woken: only the first
    /// signal wakes them.
    pub fn cancel(&mut self) -> (wake: bool)
        ensures
            *final(self) == signalled(*old(self)),
            wake == !old(self).cancelled,
    {
        let wake = !self.cancelled;
        self.cancelled = true;
        wake
    }

    /// Whether the signal has been delivered.
    pub fn is_cancelled(&self) -> (r: bool)
        ensures
            r == self.cancelled,
    {
        self.cancelled
    }

    /// What a computation that runs until the signal yields: nothing where the signal was
    /// there first, else its output.
    pub fn run_until<T>(&self, output: T) -> (r: Option<T>)
        ensures
            r == (if self.cancelled {
                None::<T>
            } else {
                Some(output)
            }),
    {
        if self.cancelled {
            None
        } else {
            Some(output)
        }
    }
}

} // verus!
