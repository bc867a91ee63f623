//! The per-benchmark measurement protocol: calibrate, capture the baseline, capture the full
//! run, subtract. Running children is left to the caller, which reports each child's output.

use vstd::prelude::*;

use crate::output::{breakdown_diff, CachegrindOutput};

verus! {

/// Number of main-loop iterations that the calibration run asks for: the warm-up target divided
/// by the instructions of the calibration run, clamped to `[1, max_iterations]`. A calibration
/// run without instructions asks for the most iterations.
pub open spec fn estimated_iterations(warm_up: u64, calibration_total: u64, max_iterations: u64) -> u64 {
    if calibration_total == 0 {
        max_iterations
    } else {
        let q = warm_up / calibration_total;
        if q < 1 {
            1
        } else if q > max_iterations {
            max_iterations
        } else {
            q
        }
    }
}

/// Number of iterations the main loop is estimated to need (see [`estimated_iterations`]).
pub fn estimate_iterations(warm_up: u64, calibration_total: u64, max_iterations: u64) -> (r: u64)
    requires
        max_iterations >= 1,
    ensures
        r == estimated_iterations(warm_up, calibration_total, max_iterations),
        1 <= r <= max_iterations,
{
    if calibration_total == 0 {
        return max_iterations;
    }
    let q = warm_up / calibration_total;
    if q < 1 {
        1
    } else if q > max_iterations {
        max_iterations
    } else {
        q
    }
}

/// Iterations of the calibration run.
pub const CALIBRATION_ITERATIONS: u64 = 2;

/// Phase of a measurement.
#[derive(Debug, Clone, Copy, PartialEq, Eq, Structural)]
pub enum Phase {
    /// Waiting for the calibration run.
    Calibration,
    /// Waiting for the baseline run.
    Baseline,
    /// Waiting for the full run.
    Full,
    /// The result was handed out.
    Finished,
}

/// A child process to spawn: it runs the benchmark `iterations` times and stops before the last
/// benchmark body (`is_baseline`) or after it.
#[derive(Debug, Clone, Copy, PartialEq, Eq, Structural)]
pub struct SpawnRequest {
    pub iterations: u64,
    pub is_baseline: bool,
}

/// What to do after a child's output was recorded.
#[derive(Debug, Clone)]
pub enum NextStep {
    /// Spawn another child.
    Spawn(SpawnRequest),
    /// Publish the benchmark's stats: full run less baseline.
    Publish(CachegrindOutput),
}

/// State of the measurement of one benchmark.
#[derive(Debug)]
pub struct Measurement {
    warm_up_instructions: u64,
    max_iterations: u64,
    phase: Phase,
    iterations: u64,
    baseline: Option<CachegrindOutput>,
}

impl Measurement {
    pub closed spec fn spec_phase(&self) -> Phase {
        self.phase
    }

    /// Main-loop iterations chosen by calibration.
    pub closed spec fn spec_iterations(&self) -> u64 {
        self.iterations
    }

    pub closed spec fn spec_baseline(&self) -> Option<CachegrindOutput> {
        self.baseline
    }

    pub closed spec fn spec_max_iterations(&self) -> u64 {
        self.max_iterations
    }

    pub closed spec fn spec_warm_up(&self) -> u64 {
        self.warm_up_instructions
    }

    /// The cap leaves room for one more iteration, calibration has picked a count in range,
    /// and a baseline is held exactly while the full run is awaited.
    #[verifier::type_invariant]
    closed spec fn wf(&self) -> bool {
        &&& 1 <= self.max_iterations < u64::MAX
        &&& self.phase != Phase::Calibration ==> 1 <= self.iterations <= self.max_iterations
        &&& (self.phase == Phase::Full) == (self.baseline is Some)
    }

    /// Starts a measurement with the warm-up target and the cap on iterations.
    pub fn new(warm_up_instructions: u64, max_iterations: u64) -> (r: Self)
        requires
            1 <= max_iterations < u64::MAX,
        ensures
            r.spec_phase() == Phase::Calibration,
            r.spec_warm_up() == warm_up_instructions,
            r.spec_max_iterations() == max_iterations,
    {
        Measurement {
            warm_up_instructions,
            max_iterations,
            phase: Phase::Calibration,
            iterations: 0,
            baseline: None,
        }
    }

    /// The child output the measurement waits for.
    pub fn phase(&self) -> (r: Phase)
        ensures
            r == self.spec_phase(),
    {
        self.phase
    }

    /// The calibration child: two iterations, stopping before the last benchmark body.
    pub fn calibration_request(&self) -> (r: SpawnRequest)
        ensures
            r == (SpawnRequest { iterations: CALIBRATION_ITERATIONS, is_baseline: true }),
    {
        SpawnRequest { iterations: CALIBRATION_ITERATIONS, is_baseline: true }
    }

    /// Records the output of the child that the current phase waits for, and says what comes
    /// next. Calibration picks the iteration count `n` and asks for a baseline run of `n + 1`
    /// iterations, except for `n == 1`, where the calibration run is the baseline. The baseline
    /// is followed by a full run of `n + 1` iterations, and that by the result.
    pub fn record(&mut self, output: CachegrindOutput) -> (r: NextStep)
        requires
            old(self).spec_phase() != Phase::Finished,
        ensures
            final(self).spec_max_iterations() == old(self).spec_max_iterations(),
            final(self).spec_warm_up() == old(self).spec_warm_up(),
            old(self).spec_phase() == Phase::Calibration ==> {
                let n = estimated_iterations(
                    old(self).spec_warm_up(),
                    output.summary.spec_total_instructions(),
                    old(self).spec_max_iterations(),
                );
                &&& final(self).spec_iterations() == n
                &&& n == 1 ==> final(self).spec_phase() == Phase::Full
                    && final(self).spec_baseline() == Some(output)
                    && r == NextStep::Spawn(SpawnRequest { iterations: 2, is_baseline: false })
                &&& n != 1 ==> final(self).spec_phase() == Phase::Baseline && r == NextStep::Spawn(
                    SpawnRequest { iterations: (n + 1) as u64, is_baseline: true },
                )
            },
            old(self).spec_phase() == Phase::Baseline ==> {
                &&& final(self).spec_phase() == Phase::Full
                &&& final(self).spec_iterations() == old(self).spec_iterations()
                &&& final(self).spec_baseline() == Some(output)
                &&& r == NextStep::Spawn(
                    SpawnRequest {
                        iterations: (old(self).spec_iterations() + 1) as u64,
                        is_baseline: false,
                    },
                )
            },
            old(self).spec_phase() == Phase::Full ==> {
                let base = old(self).spec_baseline()->0;
                &&& final(self).spec_phase() == Phase::Finished
                &&& r is Publish
                &&& r->Publish_0.summary == output.summary.spec_minus(base.summary)
                &&& r->Publish_0.breakdown_model() == breakdown_diff(
                    output.breakdown_model(),
                    base.breakdown_model(),
                    output.breakdown_model().len() as int,
                )
            },
    {
        proof {
            use_type_invariant(&*self);
        }
        let warm_up_instructions = self.warm_up_instructions;
        let max_iterations = self.max_iterations;
        match self.phase {
            Phase::Calibration => {
                let n = estimate_iterations(
                    warm_up_instructions,
                    output.summary.total_instructions(),
                    max_iterations,
                );
                if n == 1 {
                    *self = Measurement {
                        warm_up_instructions,
                        max_iterations,
                        phase: Phase::Full,
                        iterations: n,
                        baseline: Some(output),
                    };
                    NextStep::Spawn(SpawnRequest { iterations: 2, is_baseline: false })
                } else {
                    *self = Measurement {
                        warm_up_instructions,
                        max_iterations,
                        phase: Phase::Baseline,
                        iterations: n,
                        baseline: None,
                    };
                    NextStep::Spawn(SpawnRequest { iterations: n + 1, is_baseline: true })
                }
            },
            Phase::Baseline => {
                let iterations = self.iterations;
                *self = Measurement {
                    warm_up_instructions,
                    max_iterations,
                    phase: Phase::Full,
                    iterations,
                    baseline: Some(output),
                };
                NextStep::Spawn(SpawnRequest { iterations: iterations + 1, is_baseline: false })
            },
            _ => {
                let result = match &self.baseline {
                    Some(base) => output.minus(base),
                    None => output,
                };
                let iterations = self.iterations;
                *self = Measurement {
                    warm_up_instructions,
                    max_iterations,
                    phase: Phase::Finished,
                    iterations,
                    baseline: None,
                };
                NextStep::Publish(result)
            },
        }
    }
}

/// Previous stats from the files of an earlier run: the full output less the baseline output,
/// where both were there.
pub fn previous_from_files(
    baseline: Option<CachegrindOutput>,
    full: Option<CachegrindOutput>,
) -> (r: Option<CachegrindOutput>)
    ensures
        (baseline is Some && full is Some) == r is Some,
        r is Some ==> r->0.summary == full->0.summary.spec_minus(baseline->0.summary)
            && r->0.breakdown_model() == breakdown_diff(
            full->0.breakdown_model(),
            baseline->0.breakdown_model(),
            full->0.breakdown_model().len() as int,
        ),
{
    match (baseline, full) {
        (Some(b), Some(f)) => Some(f.minus(&b)),
        _ => None,
    }
}

/// Whether the current instruction count has grown over the previous one by more than
/// `threshold_ppm` parts per million of the previous count.
pub fn regressed(prev: u64, current: u64, threshold_ppm: u64) -> (r: bool)
    ensures
        r == (current > prev && (current - prev) * 1_000_000 > threshold_ppm * prev),
{
    if current <= prev {
        return false;
    }
    let increase = (current - prev) as u128;
    let t = threshold_ppm as u128;
    let p = prev as u128;
    assert(increase * 1_000_000 <= u64::MAX * 1_000_000) by (nonlinear_arith)
        requires
            increase <= u64::MAX,
    ;
    assert(t * p <= u64::MAX * u64::MAX) by (nonlinear_arith)
        requires
            t <= u64::MAX,
            p <= u64::MAX,
    ;
    let lhs: u128 = increase * 1_000_000;
    let rhs: u128 = t * p;
    lhs > rhs
}

/// Calibration never asks for fewer than one or more than `max_iterations` main-loop
/// iterations.
pub proof fn lemma_estimate_clamped(warm_up: u64, calibration_total: u64, max_iterations: u64)
    requires
        max_iterations >= 1,
    ensures
        1 <= estimated_iterations(warm_up, calibration_total, max_iterations) <= max_iterations,
{
}

} // verus!
