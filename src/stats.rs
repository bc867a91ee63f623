//! Typed counters produced by the cache simulator, and the arithmetic on them.

use vstd::prelude::*;

verus! {

/// Information about one kind of operation (instruction reads, data reads or data writes).
#[derive(Debug, Clone, Copy, PartialEq, Eq, Structural)]
pub struct CachegrindDataPoint {
    /// Total number of operations performed.
    pub total: u64,
    /// Number of operations that have missed the L1 cache.
    pub l1_misses: u64,
    /// Number of operations that have missed the L2 / L3 caches.
    pub l3_misses: u64,
}

impl CachegrindDataPoint {
    /// The counters are ordered as a cache hierarchy orders them.
    pub open spec fn wf(&self) -> bool {
        self.l3_misses <= self.l1_misses <= self.total
    }

    /// Adding two points cannot overflow any counter.
    pub open spec fn can_add(&self, rhs: Self) -> bool {
        &&& self.total + rhs.total <= u64::MAX
        &&& self.l1_misses + rhs.l1_misses <= u64::MAX
        &&& self.l3_misses + rhs.l3_misses <= u64::MAX
    }

    pub open spec fn spec_plus(self, rhs: Self) -> Self {
        CachegrindDataPoint {
            total: (self.total + rhs.total) as u64,
            l1_misses: (self.l1_misses + rhs.l1_misses) as u64,
            l3_misses: (self.l3_misses + rhs.l3_misses) as u64,
        }
    }

    pub open spec fn spec_minus(self, rhs: Self) -> Self {
        CachegrindDataPoint {
            total: saturating_diff(self.total, rhs.total),
            l1_misses: saturating_diff(self.l1_misses, rhs.l1_misses),
            l3_misses: saturating_diff(self.l3_misses, rhs.l3_misses),
        }
    }

    /// Multiplying by `k` cannot overflow any counter.
    pub open spec fn can_scale(&self, k: u64) -> bool {
        &&& self.total * k <= u64::MAX
        &&& self.l1_misses * k <= u64::MAX
        &&& self.l3_misses * k <= u64::MAX
    }

    pub open spec fn spec_times(self, k: u64) -> Self {
        CachegrindDataPoint {
            total: (self.total * k) as u64,
            l1_misses: (self.l1_misses * k) as u64,
            l3_misses: (self.l3_misses * k) as u64,
        }
    }

    pub open spec fn spec_is_zero(&self) -> bool {
        self.total == 0 && self.l1_misses == 0 && self.l3_misses == 0
    }

    /// Whether every counter is zero.
    pub fn is_zero(&self) -> (r: bool)
        ensures
            r == self.spec_is_zero(),
    {
        self.total == 0 && self.l1_misses == 0 && self.l3_misses == 0
    }

    /// A point with every counter at zero.
    pub fn zero() -> (r: Self)
        ensures
            r.total == 0 && r.l1_misses == 0 && r.l3_misses == 0,
    {
        CachegrindDataPoint { total: 0, l1_misses: 0, l3_misses: 0 }
    }

    /// Number of operations served by the L1 cache.
    pub fn l1_hits(&self) -> (r: u64)
        requires
            self.l1_misses <= self.total,
        ensures
            r == self.total - self.l1_misses,
    {
        self.total - self.l1_misses
    }

    /// Number of operations served by the L2 / L3 caches.
    pub fn l3_hits(&self) -> (r: u64)
        requires
            self.l3_misses <= self.l1_misses,
        ensures
            r == self.l1_misses - self.l3_misses,
    {
        self.l1_misses - self.l3_misses
    }

    /// Exact addition of every counter.
    pub fn plus(self, rhs: Self) -> (r: Self)
        requires
            self.can_add(rhs),
        ensures
            r == self.spec_plus(rhs),
    {
        CachegrindDataPoint {
            total: self.total + rhs.total,
            l1_misses: self.l1_misses + rhs.l1_misses,
            l3_misses: self.l3_misses + rhs.l3_misses,
        }
    }

    /// Saturating subtraction of every counter.
    pub fn minus(self, rhs: Self) -> (r: Self)
        ensures
            r == self.spec_minus(rhs),
    {
        CachegrindDataPoint {
            total: self.total.saturating_sub(rhs.total),
            l1_misses: self.l1_misses.saturating_sub(rhs.l1_misses),
            l3_misses: self.l3_misses.saturating_sub(rhs.l3_misses),
        }
    }

    /// Exact multiplication of every counter by `k`.
    pub fn times(self, k: u64) -> (r: Self)
        requires
            self.can_scale(k),
        ensures
            r == self.spec_times(k),
    {
        CachegrindDataPoint {
            total: self.total * k,
            l1_misses: self.l1_misses * k,
            l3_misses: self.l3_misses * k,
        }
    }
}

/// `a - b`, or zero where `b` exceeds `a`.
pub open spec fn saturating_diff(a: u64, b: u64) -> u64 {
    if a >= b {
        (a - b) as u64
    } else {
        0
    }
}

/// Full stats including cache simulation.
#[derive(Debug, Clone, Copy, PartialEq, Eq, Structural)]
pub struct FullCachegrindStats {
    /// Instruction-related statistics.
    pub instructions: CachegrindDataPoint,
    /// Statistics related to data reads.
    pub data_reads: CachegrindDataPoint,
    /// Statistics related to data writes.
    pub data_writes: CachegrindDataPoint,
}

/// Per-kind breakdown of one access category (L1 hits, L2 / L3 hits or RAM accesses).
#[derive(Debug, Clone, Copy, PartialEq, Eq, Structural)]
pub struct AccessDetails {
    pub instructions: u64,
    pub data_reads: u64,
    pub data_writes: u64,
}

impl FullCachegrindStats {
    pub open spec fn wf(&self) -> bool {
        self.instructions.wf() && self.data_reads.wf() && self.data_writes.wf()
    }

    pub open spec fn can_add(&self, rhs: Self) -> bool {
        &&& self.instructions.can_add(rhs.instructions)
        &&& self.data_reads.can_add(rhs.data_reads)
        &&& self.data_writes.can_add(rhs.data_writes)
    }

    pub open spec fn spec_plus(self, rhs: Self) -> Self {
        FullCachegrindStats {
            instructions: self.instructions.spec_plus(rhs.instructions),
            data_reads: self.data_reads.spec_plus(rhs.data_reads),
            data_writes: self.data_writes.spec_plus(rhs.data_writes),
        }
    }

    pub open spec fn spec_minus(self, rhs: Self) -> Self {
        FullCachegrindStats {
            instructions: self.instructions.spec_minus(rhs.instructions),
            data_reads: self.data_reads.spec_minus(rhs.data_reads),
            data_writes: self.data_writes.spec_minus(rhs.data_writes),
        }
    }

    pub open spec fn can_scale(&self, k: u64) -> bool {
        &&& self.instructions.can_scale(k)
        &&& self.data_reads.can_scale(k)
        &&& self.data_writes.can_scale(k)
    }

    pub open spec fn spec_times(self, k: u64) -> Self {
        FullCachegrindStats {
            instructions: self.instructions.spec_times(k),
            data_reads: self.data_reads.spec_times(k),
            data_writes: self.data_writes.spec_times(k),
        }
    }

    /// Every one of the nine counters is zero.
    pub open spec fn spec_is_zero(&self) -> bool {
        self.instructions.spec_is_zero() && self.data_reads.spec_is_zero()
            && self.data_writes.spec_is_zero()
    }

    /// Stats with every counter at zero.
    pub fn zero() -> (r: Self)
        ensures
            r.spec_is_zero(),
            r.instructions == r.data_reads,
            r.data_reads == r.data_writes,
            r.instructions.l1_misses == 0 && r.instructions.l3_misses == 0,
    {
        FullCachegrindStats {
            instructions: CachegrindDataPoint::zero(),
            data_reads: CachegrindDataPoint::zero(),
            data_writes: CachegrindDataPoint::zero(),
        }
    }

    /// Whether every counter is zero.
    pub fn is_zero(&self) -> (r: bool)
        ensures
            r == self.spec_is_zero(),
    {
        self.instructions.is_zero() && self.data_reads.is_zero() && self.data_writes.is_zero()
    }

    /// Exact sum of every counter.
    pub fn plus(self, rhs: Self) -> (r: Self)
        requires
            self.can_add(rhs),
        ensures
            r == self.spec_plus(rhs),
    {
        FullCachegrindStats {
            instructions: self.instructions.plus(rhs.instructions),
            data_reads: self.data_reads.plus(rhs.data_reads),
            data_writes: self.data_writes.plus(rhs.data_writes),
        }
    }

    /// Saturating difference of every counter.
    pub fn minus(self, rhs: Self) -> (r: Self)
        ensures
            r == self.spec_minus(rhs),
    {
        FullCachegrindStats {
            instructions: self.instructions.minus(rhs.instructions),
            data_reads: self.data_reads.minus(rhs.data_reads),
            data_writes: self.data_writes.minus(rhs.data_writes),
        }
    }

    /// Every counter multiplied by `k`.
    pub fn times(self, k: u64) -> (r: Self)
        requires
            self.can_scale(k),
        ensures
            r == self.spec_times(k),
    {
        FullCachegrindStats {
            instructions: self.instructions.times(k),
            data_reads: self.data_reads.times(k),
            data_writes: self.data_writes.times(k),
        }
    }

    /// L1 hits of each kind of operation.
    pub fn l1_hits(&self) -> (r: AccessDetails)
        requires
            self.wf(),
        ensures
            r.instructions == self.instructions.total - self.instructions.l1_misses,
            r.data_reads == self.data_reads.total - self.data_reads.l1_misses,
            r.data_writes == self.data_writes.total - self.data_writes.l1_misses,
    {
        AccessDetails {
            instructions: self.instructions.l1_hits(),
            data_reads: self.data_reads.l1_hits(),
            data_writes: self.data_writes.l1_hits(),
        }
    }

    /// L2 / L3 hits of each kind of operation.
    pub fn l3_hits(&self) -> (r: AccessDetails)
        requires
            self.wf(),
        ensures
            r.instructions == self.instructions.l1_misses - self.instructions.l3_misses,
            r.data_reads == self.data_reads.l1_misses - self.data_reads.l3_misses,
            r.data_writes == self.data_writes.l1_misses - self.data_writes.l3_misses,
    {
        AccessDetails {
            instructions: self.instructions.l3_hits(),
            data_reads: self.data_reads.l3_hits(),
            data_writes: self.data_writes.l3_hits(),
        }
    }

    /// RAM accesses of each kind of operation.
    pub fn ram(&self) -> (r: AccessDetails)
        ensures
            r.instructions == self.instructions.l3_misses,
            r.data_reads == self.data_reads.l3_misses,
            r.data_writes == self.data_writes.l3_misses,
    {
        AccessDetails {
            instructions: self.instructions.l3_misses,
            data_reads: self.data_reads.l3_misses,
            data_writes: self.data_writes.l3_misses,
        }
    }
}

impl AccessDetails {
    /// Which kinds of operation a detailed report lists: those with accesses now or, where
    /// there is a previous run, with accesses then.
    pub fn shown(&self, old: Option<AccessDetails>) -> (r: (bool, bool, bool))
        ensures
            r.0 == (self.instructions > 0 || (old is Some && old->0.instructions > 0)),
            r.1 == (self.data_reads > 0 || (old is Some && old->0.data_reads > 0)),
            r.2 == (self.data_writes > 0 || (old is Some && old->0.data_writes > 0)),
    {
        match old {
            Some(o) => (
                self.instructions > 0 || o.instructions > 0,
                self.data_reads > 0 || o.data_reads > 0,
                self.data_writes > 0 || o.data_writes > 0,
            ),
            None => (self.instructions > 0, self.data_reads > 0, self.data_writes > 0),
        }
    }
}

/// Raw summary output produced by the simulator.
#[derive(Debug, Clone, Copy, PartialEq, Eq, Structural)]
pub enum CachegrindStats {
    /// Stats produced with cache simulation disabled.
    Simple {
        /// Total number of executed instructions.
        instructions: u64,
    },
    /// Full stats including cache simulation.
    Full(FullCachegrindStats),
}

impl CachegrindStats {
    pub open spec fn spec_total_instructions(self) -> u64 {
        match self {
            CachegrindStats::Simple { instructions } => instructions,
            CachegrindStats::Full(stats) => stats.instructions.total,
        }
    }

    pub open spec fn spec_is_zero(self) -> bool {
        match self {
            CachegrindStats::Simple { instructions } => instructions == 0,
            CachegrindStats::Full(stats) => stats.spec_is_zero(),
        }
    }

    /// Adding two stats cannot overflow.
    pub open spec fn can_add(self, rhs: Self) -> bool {
        match (self, rhs) {
            (CachegrindStats::Full(a), CachegrindStats::Full(b)) => a.can_add(b),
            _ => self.spec_total_instructions() + rhs.spec_total_instructions() <= u64::MAX,
        }
    }

    /// Sum of two stats; a mix of variants collapses to `Simple`.
    pub open spec fn spec_plus(self, rhs: Self) -> Self {
        match (self, rhs) {
            (CachegrindStats::Full(a), CachegrindStats::Full(b)) => CachegrindStats::Full(
                a.spec_plus(b),
            ),
            _ => CachegrindStats::Simple {
                instructions: (self.spec_total_instructions()
                    + rhs.spec_total_instructions()) as u64,
            },
        }
    }

    /// Saturating difference of two stats; a mix of variants collapses to `Simple`.
    pub open spec fn spec_minus(self, rhs: Self) -> Self {
        match (self, rhs) {
            (CachegrindStats::Full(a), CachegrindStats::Full(b)) => CachegrindStats::Full(
                a.spec_minus(b),
            ),
            _ => CachegrindStats::Simple {
                instructions: saturating_diff(
                    self.spec_total_instructions(),
                    rhs.spec_total_instructions(),
                ),
            },
        }
    }

    pub open spec fn zero_spec() -> Self {
        let p = CachegrindDataPoint { total: 0, l1_misses: 0, l3_misses: 0 };
        CachegrindStats::Full(FullCachegrindStats { instructions: p, data_reads: p, data_writes: p })
    }

    /// Full stats with every counter at zero.
    pub fn zero() -> (r: Self)
        ensures
            r == Self::zero_spec(),
    {
        CachegrindStats::Full(FullCachegrindStats::zero())
    }

    /// Returns full stats if they are available.
    pub fn as_full(&self) -> (r: Option<&FullCachegrindStats>)
        ensures
            match *self {
                CachegrindStats::Full(stats) => r == Some(&stats),
                CachegrindStats::Simple { .. } => r is None,
            },
    {
        match self {
            CachegrindStats::Full(stats) => Some(stats),
            CachegrindStats::Simple { .. } => None,
        }
    }

    /// Gets the total number of executed instructions.
    pub fn total_instructions(&self) -> (r: u64)
        ensures
            r == self.spec_total_instructions(),
    {
        match self {
            CachegrindStats::Simple { instructions } => *instructions,
            CachegrindStats::Full(stats) => stats.instructions.total,
        }
    }

    /// Whether nothing was counted.
    pub fn is_zero(&self) -> (r: bool)
        ensures
            r == self.spec_is_zero(),
    {
        match self {
            CachegrindStats::Simple { instructions } => *instructions == 0,
            CachegrindStats::Full(stats) => stats.is_zero(),
        }
    }

    /// Exact sum of two stats.
    pub fn plus(self, rhs: Self) -> (r: Self)
        requires
            self.can_add(rhs),
        ensures
            r == self.spec_plus(rhs),
    {
        match (self, rhs) {
            (CachegrindStats::Full(a), CachegrindStats::Full(b)) => CachegrindStats::Full(
                a.plus(b),
            ),
            _ => CachegrindStats::Simple {
                instructions: self.total_instructions() + rhs.total_instructions(),
            },
        }
    }

    /// Sum of two stats, or `None` where a counter would overflow.
    pub fn checked_plus(self, rhs: Self) -> (r: Option<Self>)
        ensures
            r == (if self.can_add(rhs) {
                Some(self.spec_plus(rhs))
            } else {
                None::<Self>
            }),
    {
        let ok = match (self, rhs) {
            (CachegrindStats::Full(a), CachegrindStats::Full(b)) => {
                a.instructions.total.checked_add(b.instructions.total).is_some()
                    && a.instructions.l1_misses.checked_add(b.instructions.l1_misses).is_some()
                    && a.instructions.l3_misses.checked_add(b.instructions.l3_misses).is_some()
                    && a.data_reads.total.checked_add(b.data_reads.total).is_some()
                    && a.data_reads.l1_misses.checked_add(b.data_reads.l1_misses).is_some()
                    && a.data_reads.l3_misses.checked_add(b.data_reads.l3_misses).is_some()
                    && a.data_writes.total.checked_add(b.data_writes.total).is_some()
                    && a.data_writes.l1_misses.checked_add(b.data_writes.l1_misses).is_some()
                    && a.data_writes.l3_misses.checked_add(b.data_writes.l3_misses).is_some()
            },
            _ => self.total_instructions().checked_add(rhs.total_instructions()).is_some(),
        };
        if ok {
            Some(self.plus(rhs))
        } else {
            None
        }
    }

    /// Saturating difference of two stats.
    pub fn minus(self, rhs: Self) -> (r: Self)
        ensures
            r == self.spec_minus(rhs),
    {
        match (self, rhs) {
            (CachegrindStats::Full(a), CachegrindStats::Full(b)) => CachegrindStats::Full(
                a.minus(b),
            ),
            _ => CachegrindStats::Simple {
                instructions: self.total_instructions().saturating_sub(rhs.total_instructions()),
            },
        }
    }
}

impl Default for CachegrindStats {
    /// Full stats with every counter at zero.
    fn default() -> (r: Self)
        ensures
            r == CachegrindStats::zero_spec(),
    {
        CachegrindStats::zero()
    }
}

/// High-level memory access stats summarized from [`FullCachegrindStats`].
#[derive(Debug, Clone, Copy, PartialEq, Eq, Structural)]
pub struct AccessSummary {
    /// Total number of instructions executed.
    pub instructions: u64,
    /// Total number of L1 cache hits (instruction reads, data reads and data writes).
    pub l1_hits: u64,
    /// Total number of L2 / L3 cache hits (instruction reads, data reads and data writes).
    pub l3_hits: u64,
    /// Total number of RAM accesses.
    pub ram_accesses: u64,
}

/// Sum of the totals of the three kinds of operation.
pub open spec fn total_accesses(s: FullCachegrindStats) -> int {
    s.instructions.total + s.data_reads.total + s.data_writes.total
}

/// Sum of the L1 misses of the three kinds of operation.
pub open spec fn at_least_l3(s: FullCachegrindStats) -> int {
    s.instructions.l1_misses + s.data_reads.l1_misses + s.data_writes.l1_misses
}

/// Sum of the L2 / L3 misses of the three kinds of operation.
pub open spec fn ram_accesses(s: FullCachegrindStats) -> int {
    s.instructions.l3_misses + s.data_reads.l3_misses + s.data_writes.l3_misses
}

/// The sums that an access summary is built from are ordered and fit in `u64`.
pub open spec fn summarizable(s: FullCachegrindStats) -> bool {
    ram_accesses(s) <= at_least_l3(s) <= total_accesses(s) <= u64::MAX
}

/// The access summary of `s`: RAM accesses are the L2 / L3 misses, L2 / L3 hits the L1 misses
/// that did not reach RAM, and L1 hits the remaining accesses.
pub open spec fn access_summary(s: FullCachegrindStats) -> AccessSummary {
    AccessSummary {
        instructions: s.instructions.total,
        l1_hits: (total_accesses(s) - at_least_l3(s)) as u64,
        l3_hits: (at_least_l3(s) - ram_accesses(s)) as u64,
        ram_accesses: ram_accesses(s) as u64,
    }
}

impl AccessSummary {
    /// Summarizes full stats into hits per cache level.
    pub fn new(stats: &FullCachegrindStats) -> (r: Self)
        requires
            summarizable(*stats),
        ensures
            r == access_summary(*stats),
    {
        let ram_accesses = stats.instructions.l3_misses + stats.data_reads.l3_misses
            + stats.data_writes.l3_misses;
        let at_least_l3_hits = stats.instructions.l1_misses + stats.data_reads.l1_misses
            + stats.data_writes.l1_misses;
        let l3_hits = at_least_l3_hits - ram_accesses;
        let total_accesses = stats.instructions.total + stats.data_reads.total
            + stats.data_writes.total;
        let l1_hits = total_accesses - at_least_l3_hits;
        AccessSummary { instructions: stats.instructions.total, l1_hits, l3_hits, ram_accesses }
    }

    pub open spec fn spec_estimated_cycles(&self) -> int {
        self.l1_hits + 5 * self.l3_hits + 35 * self.ram_accesses
    }

    /// Estimated number of CPU cycles: one per L1 hit, 5 per L2 / L3 hit and 35 per RAM access.
    pub fn estimated_cycles(&self) -> (r: u64)
        requires
            self.spec_estimated_cycles() <= u64::MAX,
        ensures
            r == self.spec_estimated_cycles(),
    {
        self.l1_hits + 5 * self.l3_hits + 35 * self.ram_accesses
    }
}

/// Adding `b` to stats `a` and then subtracting `b` again gives back `a`, where both are of one
/// variant, or where `a` is `Simple` (a `Full` value plus a `Simple` one collapses to `Simple`,
/// which cannot give the `Full` value back).
pub proof fn lemma_plus_then_minus(a: CachegrindStats, b: CachegrindStats)
    requires
        a.can_add(b),
        !(a is Full && b is Simple),
    ensures
        a.spec_plus(b).spec_minus(b) == a,
{
}

/// Adding two well-formed points keeps the order `l3_misses <= l1_misses <= total`.
pub proof fn lemma_plus_keeps_order(a: CachegrindDataPoint, b: CachegrindDataPoint)
    requires
        a.wf(),
        b.wf(),
        a.can_add(b),
    ensures
        a.spec_plus(b).wf(),
{
}

/// Scaling a well-formed point keeps the order `l3_misses <= l1_misses <= total`.
pub proof fn lemma_times_keeps_order(a: CachegrindDataPoint, k: u64)
    requires
        a.wf(),
        a.can_scale(k),
    ensures
        a.spec_times(k).wf(),
{
    assert(a.l3_misses * k <= a.l1_misses * k) by (nonlinear_arith)
        requires
            a.l3_misses <= a.l1_misses,
    ;
    assert(a.l1_misses * k <= a.total * k) by (nonlinear_arith)
        requires
            a.l1_misses <= a.total,
    ;
}

/// Well-formed full stats whose totals fit in `u64` can be summarized.
pub proof fn lemma_wf_summarizable(s: FullCachegrindStats)
    requires
        s.wf(),
        total_accesses(s) <= u64::MAX,
    ensures
        summarizable(s),
{
}

/// The access summary partitions every access: each one is an L1 hit, an L2 / L3 hit or a RAM
/// access, exactly once. So the totals equal `l1_hits + l3_hits + ram_accesses`, and adding the
/// instruction L1 misses to that sum, as in the identity sometimes quoted, overcounts by exactly
/// those misses unless there are none.
pub proof fn lemma_access_partition(s: FullCachegrindStats)
    requires
        summarizable(s),
    ensures
        total_accesses(s) == access_summary(s).l1_hits + access_summary(s).l3_hits
            + access_summary(s).ram_accesses,
{
}

} // verus!
