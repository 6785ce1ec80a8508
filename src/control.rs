//! The step/run/halt controller. Run mode is a repeating timer owned by the
//! host; the controller decides when to start and cancel it, and holds its
//! handle while running, so that the handle's presence is the only witness
//! of run mode.
use vstd::prelude::*;
use crate::error::EmuError;

verus! {

/// The number of CPU cycles each timer tick asks for in run mode: enough
/// work per tick for throughput, bounded so the event loop stays responsive.
pub const RUN_BATCH_CYCLES: u64 = 400000;

/// What the host must do after the run button is pressed.
pub enum RunRequest<H> {
    /// Start a zero-delay repeating timer and hand its handle to `timer_started`.
    StartTimer,
    /// Cancel this timer: run mode has ended.
    CancelTimer(H),
}

/// The controller's state: the run timer's handle while running, the halted
/// flag, and the last execution error reported.
pub struct ExecutionController<H> {
    timer: Option<H>,
    halted: bool,
    last_error: Option<EmuError>,
}

impl<H> ExecutionController<H> {
    /// The handle of the run timer; present exactly in run mode.
    pub closed spec fn timer(&self) -> Option<H> {
        self.timer
    }

    /// Whether the CPU is marked halted.
    pub closed spec fn is_halted(&self) -> bool {
        self.halted
    }

    /// The last error that stepping or running reported.
    pub closed spec fn error(&self) -> Option<EmuError> {
        self.last_error
    }

    /// Idle, not halted, no error.
    pub fn new() -> (r: ExecutionController<H>)
        ensures
            r.timer() is None,
            !r.is_halted(),
            r.error() is None,
    {
        ExecutionController { timer: None, halted: false, last_error: None }
    }

    /// Whether run mode is active.
    pub fn is_running(&self) -> (r: bool)
        ensures
            r == self.timer().is_some(),
    {
        self.timer.is_some()
    }

    /// Whether the CPU is marked halted.
    pub fn halted(&self) -> (r: bool)
        ensures
            r == self.is_halted(),
    {
        self.halted
    }

    /// The last error that stepping or running reported, if any.
    pub fn last_error(&self) -> (r: Option<EmuError>)
        ensures
            r == self.error(),
    {
        self.last_error
    }

    /// Flips the halted flag; run mode is left as it is.
    pub fn toggle_halt(&mut self) -> (r: bool)
        ensures
            r == !old(self).is_halted(),
            final(self).is_halted() == r,
            final(self).timer() == old(self).timer(),
            final(self).error() == old(self).error(),
    {
        self.halted = !self.halted;
        self.halted
    }

    /// The run button. Running: run mode ends now and the timer is handed
    /// back to be cancelled. Idle: the host is asked to start a timer; run
    /// mode begins when it reports the handle.
    pub fn toggle_run(&mut self) -> (r: RunRequest<H>)
        ensures
            final(self).timer() is None,
            final(self).is_halted() == old(self).is_halted(),
            final(self).error() == old(self).error(),
            old(self).timer() is None ==> r is StartTimer,
            old(self).timer() matches Some(h) ==> r == RunRequest::CancelTimer(h),
    {
        match self.timer.take() {
            Some(h) => RunRequest::CancelTimer(h),
            None => RunRequest::StartTimer,
        }
    }

    /// The host started the run timer. Returns a handle to cancel: none when
    /// idle, since run mode now begins; the new one when already running.
    pub fn timer_started(&mut self, handle: H) -> (r: Option<H>)
        ensures
            final(self).timer().is_some(),
            final(self).is_halted() == old(self).is_halted(),
            final(self).error() == old(self).error(),
            old(self).timer() is None ==> r is None && final(self).timer() == Some(handle),
            old(self).timer() is Some ==> r == Some(handle) && final(self).timer() == old(self).timer(),
    {
        if self.timer.is_some() {
            Some(handle)
        } else {
            self.timer = Some(handle);
            None
        }
    }

    /// The outcome of a run-mode tick of `RUN_BATCH_CYCLES` cycles. An error
    /// is recorded and ends run mode: the timer is handed back to be
    /// cancelled. Success changes nothing.
    pub fn on_tick(&mut self, outcome: Result<(), EmuError>) -> (r: Option<H>)
        ensures
            final(self).is_halted() == old(self).is_halted(),
            outcome is Ok ==> r is None && final(self).timer() == old(self).timer() && final(self).error()
                == old(self).error(),
            outcome matches Err(e) ==> r == old(self).timer() && final(self).timer() is None
                && final(self).error() == Some(e),
    {
        self.finish(outcome)
    }

    /// The outcome of a single step. An error is recorded and, in run mode,
    /// ends it: the timer is handed back to be cancelled. Memory and registers
    /// that the step already changed stay as they are.
    pub fn on_step(&mut self, outcome: Result<(), EmuError>) -> (r: Option<H>)
        ensures
            final(self).is_halted() == old(self).is_halted(),
            outcome is Ok ==> r is None && final(self).timer() == old(self).timer() && final(self).error()
                == old(self).error(),
            outcome matches Err(e) ==> r == old(self).timer() && final(self).timer() is None
                && final(self).error() == Some(e),
    {
        self.finish(outcome)
    }

    fn finish(&mut self, outcome: Result<(), EmuError>) -> (r: Option<H>)
        ensures
            final(self).is_halted() == old(self).is_halted(),
            outcome is Ok ==> r is None && final(self).timer() == old(self).timer() && final(self).error()
                == old(self).error(),
            outcome matches Err(e) ==> r == old(self).timer() && final(self).timer() is None
                && final(self).error() == Some(e),
    {
        match outcome {
            Ok(()) => None,
            Err(e) => {
                self.last_error = Some(e);
                self.timer.take()
            },
        }
    }
}

} // verus!
