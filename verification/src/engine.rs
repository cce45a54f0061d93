//! The life of a running engine: it is told to stop once, and waited for once.
use vstd::prelude::*;

verus! {

/// How waiting for the engine ended.
#[derive(Debug)]
pub enum EngineEnd {
    Drained,
    /// The task panicked or was aborted.
    JoinFailed(String),
    TimedOut,
}

/// Why the engine did not stop as it should.
#[derive(Debug)]
pub enum ShutdownError {
    Join(String),
    /// The deadline, in milliseconds, passed.
    Timeout(u64),
}

/// What the owner of an engine still holds.
#[derive(Debug)]
pub struct EngineLifecycle {
    /// The stop signal has not been sent yet.
    pub has_signal: bool,
    /// The task has not been waited for yet.
    pub has_handle: bool,
    pub shutdown_called: bool,
}

impl EngineLifecycle {
    pub fn new() -> (lifecycle: Self)
        ensures
            lifecycle.has_signal,
            lifecycle.has_handle,
            !lifecycle.shutdown_called,
    {
        EngineLifecycle { has_signal: true, has_handle: true, shutdown_called: false }
    }

    /// What the beginning of a shutdown does.
    pub open spec fn begun(before: Self, after: Self, steps: (bool, bool)) -> bool {
        &&& steps.0 == before.has_signal
        &&& steps.1 == before.has_handle
        &&& after.shutdown_called
        &&& !after.has_signal
        &&& !after.has_handle
    }

    /// What a drop does.
    pub open spec fn dropped(before: Self, after: Self, send_signal: bool) -> bool {
        &&& send_signal == (!before.shutdown_called && before.has_signal)
        &&& after == if before.shutdown_called {
            before
        } else {
            EngineLifecycle { has_signal: false, ..before }
        }
    }

    /// Whatever the order of things, the engine is told to stop once and waited for at
    /// most once: a second shutdown sends nothing and waits for nothing, a drop after a
    /// shutdown sends nothing, and a drop without one sends the signal.
    pub proof fn law_the_engine_is_stopped_once(
        before: Self,
        stopped: Self,
        again: Self,
        gone: Self,
        lost: Self,
        first: (bool, bool),
        second: (bool, bool),
        after_stop: bool,
        without_stop: bool,
    )
        requires
            before.has_signal,
            before.has_handle,
            !before.shutdown_called,
            Self::begun(before, stopped, first),
            Self::begun(stopped, again, second),
            Self::dropped(stopped, gone, after_stop),
            Self::dropped(before, lost, without_stop),
        ensures
            first == (true, true),
            second == (false, false),
            !after_stop,
            without_stop,
            !lost.has_signal,
            lost.has_handle,
    {
    }

    /// Begins to stop: tells whether the signal is sent and whether the task is
    /// waited for.
    pub fn begin_shutdown(&mut self) -> (steps: (bool, bool))
        ensures
            Self::begun(*old(self), *final(self), steps),
    {
        let signal = self.has_signal;
        let handle = self.has_handle;
        self.shutdown_called = true;
        self.has_signal = false;
        self.has_handle = false;
        (signal, handle)
    }

    /// `result` is how a shutdown ended.
    pub open spec fn is_shutdown(
        waited: Option<EngineEnd>,
        deadline_ms: u64,
        result: Result<(), ShutdownError>,
    ) -> bool {
        result == match waited {
            None => Ok::<(), ShutdownError>(()),
            Some(EngineEnd::Drained) => Ok(()),
            Some(EngineEnd::JoinFailed(e)) => Err(ShutdownError::Join(e)),
            Some(EngineEnd::TimedOut) => Err(ShutdownError::Timeout(deadline_ms)),
        }
    }

    /// A shutdown fails exactly where the task failed or ran out of time, with the words
    /// of the failure or the deadline that it had.
    pub proof fn law_shutdowns_tell_what_failed(
        waited: Option<EngineEnd>,
        deadline_ms: u64,
        result: Result<(), ShutdownError>,
    )
        requires
            Self::is_shutdown(waited, deadline_ms, result),
        ensures
            result is Err <==> waited is Some && !(waited->0 is Drained),
            waited matches Some(EngineEnd::JoinFailed(e)) ==> (result matches Err(
                ShutdownError::Join(words),
            ) && words == e),
            waited matches Some(EngineEnd::TimedOut) ==> (result matches Err(
                ShutdownError::Timeout(ms),
            ) && ms == deadline_ms),
    {
    }

    /// The result of a shutdown. A task that was drained before is no error.
    pub fn shutdown(waited: Option<EngineEnd>, deadline_ms: u64) -> (result: Result<
        (),
        ShutdownError,
    >)
        ensures
            Self::is_shutdown(waited, deadline_ms, result),
    {
        match waited {
            None => Ok(()),
            Some(EngineEnd::Drained) => Ok(()),
            Some(EngineEnd::JoinFailed(e)) => Err(ShutdownError::Join(e)),
            Some(EngineEnd::TimedOut) => Err(ShutdownError::Timeout(deadline_ms)),
        }
    }

    /// What happens when the lifecycle is dropped: without a shutdown the signal,
    /// if it is still there, is sent after all.
    pub fn on_drop(&mut self) -> (send_signal: bool)
        ensures
            Self::dropped(*old(self), *final(self), send_signal),
    {
        if self.shutdown_called {
            return false;
        }
        let signal = self.has_signal;
        self.has_signal = false;
        signal
    }
}

} // verus!
