//! Decisions of the child process: which iteration stops the simulator's capture, and where.

use vstd::prelude::*;

verus! {

/// What starting a capture does.
#[derive(Debug, Clone, Copy, PartialEq, Eq, Structural)]
pub enum CaptureBehavior {
    /// Nothing: the iteration is not the last one.
    NoOp,
    /// Stop the process as the capture starts: the last iteration of a baseline run.
    TerminateOnStart,
    /// Stop the process as the capture ends: the last iteration of a full run.
    TerminateOnEnd,
}

/// Behavior of the capture handed to iteration `i` of `iterations`.
pub open spec fn behavior_for(i: u64, iterations: u64, is_baseline: bool) -> CaptureBehavior {
    if i != iterations {
        CaptureBehavior::NoOp
    } else if is_baseline {
        CaptureBehavior::TerminateOnStart
    } else {
        CaptureBehavior::TerminateOnEnd
    }
}

/// Manager of capturing benchmarking stats handed to a benchmark closure.
#[derive(Debug)]
pub struct Capture {
    behavior: CaptureBehavior,
}

/// Guard of a started capture; when it ends, capturing stops.
#[derive(Debug)]
pub struct CaptureGuard {
    terminate: bool,
}

impl Capture {
    pub closed spec fn spec_behavior(&self) -> CaptureBehavior {
        self.behavior
    }

    /// A capture that never stops the process, for runs without instrumentation.
    pub fn no_op() -> (r: Self)
        ensures
            r.spec_behavior() == CaptureBehavior::NoOp,
    {
        Capture { behavior: CaptureBehavior::NoOp }
    }

    /// The capture for iteration `i` (counted from 1) of a run of `iterations`: only the last
    /// iteration stops the process, before its measured part in a baseline run and after it
    /// in a full run.
    pub fn for_iteration(i: u64, iterations: u64, is_baseline: bool) -> (r: Self)
        ensures
            r.spec_behavior() == behavior_for(i, iterations, is_baseline),
    {
        let behavior = if i != iterations {
            CaptureBehavior::NoOp
        } else if is_baseline {
            CaptureBehavior::TerminateOnStart
        } else {
            CaptureBehavior::TerminateOnEnd
        };
        Capture { behavior }
    }

    /// What starting this capture does.
    pub fn behavior(&self) -> (r: CaptureBehavior)
        ensures
            r == self.spec_behavior(),
    {
        self.behavior
    }

    /// Starts the capture: `None` where the process must stop now, else the guard, which says
    /// whether the process stops when the capture ends.
    pub fn start(self) -> (r: Option<CaptureGuard>)
        ensures
            (r is None) == (self.spec_behavior() == CaptureBehavior::TerminateOnStart),
            r is Some ==> r->0.spec_terminates() == (self.spec_behavior()
                == CaptureBehavior::TerminateOnEnd),
    {
        match self.behavior {
            CaptureBehavior::NoOp => Some(CaptureGuard { terminate: false }),
            CaptureBehavior::TerminateOnStart => None,
            CaptureBehavior::TerminateOnEnd => Some(CaptureGuard { terminate: true }),
        }
    }
}

impl CaptureGuard {
    pub closed spec fn spec_terminates(&self) -> bool {
        self.terminate
    }

    /// Whether the process stops when this capture ends.
    pub fn terminates(&self) -> (r: bool)
        ensures
            r == self.spec_terminates(),
    {
        self.terminate
    }
}

/// Of the captures of a run of `iterations`, exactly the last one stops the process: a
/// baseline run stops before the last measured part, a full run after it.
pub proof fn lemma_only_last_iteration_stops(iterations: u64, is_baseline: bool, i: u64)
    requires
        1 <= i <= iterations,
    ensures
        i < iterations ==> behavior_for(i, iterations, is_baseline) == CaptureBehavior::NoOp,
        i == iterations && is_baseline ==> behavior_for(i, iterations, is_baseline)
            == CaptureBehavior::TerminateOnStart,
        i == iterations && !is_baseline ==> behavior_for(i, iterations, is_baseline)
            == CaptureBehavior::TerminateOnEnd,
{
}

} // verus!
