//! The signal that ends every task.
use vstd::prelude::*;

verus! {

/// A signal that is given once and stays given.
#[derive(Debug)]
pub struct ShutdownSignal {
    pub cancelled: bool,
}

impl ShutdownSignal {
    pub fn new() -> (signal: Self)
        ensures
            !signal.cancelled,
    {
        ShutdownSignal { cancelled: false }
    }

    /// Gives the signal. To give it again changes nothing.
    pub fn cancel(&mut self)
        ensures
            final(self).cancelled,
    {
        self.cancelled = true;
    }

    pub fn is_cancelled(&self) -> (b: bool)
        ensures
            b == self.cancelled,
    {
        self.cancelled
    }
}

} // verus!
