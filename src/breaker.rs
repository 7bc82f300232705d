//! The disk admission breaker: a byte limit taken once from the data
//! directory's capacity, and a trip flag set from each usage sample.
use vstd::prelude::*;

verus! {

/// A usage ratio is given in parts of this scale (parts per billion).
pub const RATIO_SCALE: u64 = 1_000_000_000;

/// The byte limit for a usage ratio of `ratio` parts per billion of
/// `capacity` bytes, rounded down and capped at the largest `u64`.
pub open spec fn limit_spec(ratio: nat, capacity: nat) -> nat {
    let l = capacity * ratio / (RATIO_SCALE as nat);
    if l > u64::MAX {
        u64::MAX as nat
    } else {
        l
    }
}

/// The byte limit for a usage ratio of `ratio` parts per billion of a
/// filesystem of `capacity` bytes. A limit of zero disables the breaker.
pub fn capacity_limit(ratio: u64, capacity: u64) -> (r: u64)
    ensures
        r as nat == limit_spec(ratio as nat, capacity as nat),
{
    assert(capacity as nat * ratio as nat <= u128::MAX) by (nonlinear_arith)
        requires
            capacity <= u64::MAX,
            ratio <= u64::MAX,
    ;
    let product: u128 = (capacity as u128) * (ratio as u128);
    let l: u128 = product / (RATIO_SCALE as u128);
    if l > u64::MAX as u128 {
        u64::MAX
    } else {
        l as u64
    }
}

/// The usage that a sample stands for: a sample that failed counts as zero,
/// so that a failing probe does not itself halt admission.
pub open spec fn usage_of(sample: Option<u64>) -> nat {
    match sample {
        Some(u) => u as nat,
        None => 0,
    }
}

/// The trip flag after one sample: a disabled breaker never samples.
pub open spec fn next_tripped(limit: u64, tripped: bool, sample: Option<u64>) -> bool {
    if limit > 0 {
        usage_of(sample) > limit
    } else {
        tripped
    }
}

/// The trip flag after the samples `samples`, taken in order.
pub open spec fn tripped_after(limit: u64, tripped: bool, samples: Seq<Option<u64>>) -> bool
    decreases samples.len(),
{
    if samples.len() == 0 {
        tripped
    } else {
        next_tripped(limit, tripped_after(limit, tripped, samples.drop_last()), samples.last())
    }
}

/// The breaker's state: its limit, and whether the latest sample was over it.
#[derive(Debug, Clone, Copy)]
pub struct DiskBreaker {
    limit: u64,
    tripped: bool,
}

impl DiskBreaker {
    pub closed spec fn spec_limit(&self) -> u64 {
        self.limit
    }

    pub closed spec fn spec_tripped(&self) -> bool {
        self.tripped
    }

    /// A breaker that is never tripped while it is disabled.
    pub closed spec fn wf(&self) -> bool {
        self.limit == 0 ==> !self.tripped
    }

    /// A breaker with limit `limit`, not tripped.
    pub fn new(limit: u64) -> (r: DiskBreaker)
        ensures
            r.wf(),
            r.spec_limit() == limit,
            !r.spec_tripped(),
    {
        DiskBreaker { limit, tripped: false }
    }

    /// Whether the breaker samples at all: a zero limit disables it.
    pub fn is_enabled(&self) -> (r: bool)
        ensures
            r == (self.spec_limit() > 0),
    {
        self.limit > 0
    }

    pub fn limit(&self) -> (r: u64)
        ensures
            r == self.spec_limit(),
    {
        self.limit
    }

    /// Whether the latest sample was over the limit.
    pub fn is_tripped(&self) -> (r: bool)
        ensures
            r == self.spec_tripped(),
    {
        self.tripped
    }

    /// Takes one usage sample (`None` when sampling failed) and returns the
    /// trip flag to publish.
    pub fn observe(&mut self, sample: Option<u64>) -> (r: bool)
        requires
            old(self).wf(),
        ensures
            final(self).wf(),
            final(self).spec_limit() == old(self).spec_limit(),
            final(self).spec_tripped() == next_tripped(
                old(self).spec_limit(),
                old(self).spec_tripped(),
                sample,
            ),
            r == final(self).spec_tripped(),
    {
        if self.limit > 0 {
            let usage: u64 = match sample {
                Some(u) => u,
                None => 0,
            };
            self.tripped = usage > self.limit;
        }
        self.tripped
    }
}

/// With a zero ratio the breaker is disabled whatever the capacity, and its
/// flag stays down through any run of samples.
pub proof fn lemma_zero_ratio_never_trips(capacity: u64, samples: Seq<Option<u64>>)
    ensures
        limit_spec(0, capacity as nat) == 0,
        !tripped_after(0, false, samples),
    decreases samples.len(),
{
    assert(capacity as nat * 0 == 0) by (nonlinear_arith);
    if samples.len() > 0 {
        lemma_zero_ratio_never_trips(capacity, samples.drop_last());
    }
}

/// Once an enabled breaker has taken a sample, its flag is up exactly when
/// that sample's usage is over `ratio` parts per billion of `capacity`.
pub proof fn lemma_trips_over_limit(
    ratio: u64,
    capacity: u64,
    tripped: bool,
    samples: Seq<Option<u64>>,
)
    requires
        limit_spec(ratio as nat, capacity as nat) > 0,
        samples.len() > 0,
    ensures
        tripped_after(limit_spec(ratio as nat, capacity as nat) as u64, tripped, samples) == (
        usage_of(samples.last()) * (RATIO_SCALE as nat) > capacity as nat * ratio as nat),
{
    let y = capacity as nat * ratio as nat;
    let s = RATIO_SCALE as nat;
    let q = y / s;
    let u = usage_of(samples.last());
    assert(y == q * s + y % s && y % s < s) by (nonlinear_arith)
        requires
            s > 0,
            q == y / s,
    ;
    assert(u > q <==> u * s > y) by (nonlinear_arith)
        requires
            y == q * s + y % s,
            0 <= y % s < s,
            s > 0,
    ;
    if q > u64::MAX {
        assert(u <= u64::MAX);
        assert(u * s <= u64::MAX * s) by (nonlinear_arith)
            requires
                u <= u64::MAX,
                s > 0,
        ;
        assert((u64::MAX + 1) * s <= q * s) by (nonlinear_arith)
            requires
                q >= u64::MAX + 1,
                s > 0,
        ;
    }
}

} // verus!
