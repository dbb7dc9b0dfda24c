use vstd::prelude::*;

verus! {

/// Accumulated outcomes of repeated independent trials: the least and the
/// greatest fitness key seen and the number of trials folded in. Keys order
/// like the real measurements they encode (see `vector`); the running numeric
/// mean of the underlying reals lives with the caller, beside the arithmetic.
///
/// An empty accumulator carries the neutral sentinels: a minimum above every
/// key and a maximum below every key.
#[derive(Clone, Copy, Debug, PartialEq, Eq, Structural)]
pub struct BatchRunData {
    pub min_result: u64,
    pub max_result: u64,
    pub run_count: usize,
}

/// The combination of two accumulators: least minimum, greatest maximum,
/// summed trial count.
pub open spec fn spec_merged(a: BatchRunData, b: BatchRunData) -> BatchRunData {
    BatchRunData {
        min_result: if b.min_result < a.min_result {
            b.min_result
        } else {
            a.min_result
        },
        max_result: if b.max_result > a.max_result {
            b.max_result
        } else {
            a.max_result
        },
        run_count: (a.run_count + b.run_count) as usize,
    }
}

/// The accumulator after one more trial outcome.
pub open spec fn spec_folded(a: BatchRunData, value: u64) -> BatchRunData {
    BatchRunData {
        min_result: if value < a.min_result {
            value
        } else {
            a.min_result
        },
        max_result: if value > a.max_result {
            value
        } else {
            a.max_result
        },
        run_count: (a.run_count + 1) as usize,
    }
}

impl BatchRunData {
    /// Once anything was folded in, the recorded extremes bracket each other.
    pub open spec fn wf(self) -> bool {
        &&& (self.run_count == 0 ==> self.min_result == u64::MAX && self.max_result == 0)
        &&& (self.run_count > 0 ==> self.min_result <= self.max_result)
    }

    pub fn new() -> (r: BatchRunData)
        ensures
            r == (BatchRunData { min_result: u64::MAX, max_result: 0, run_count: 0 }),
            r.wf(),
    {
        BatchRunData { min_result: u64::MAX, max_result: 0, run_count: 0 }
    }

    /// Fold one trial outcome in.
    pub fn add_result(&mut self, value: u64)
        requires
            old(self).run_count < usize::MAX,
        ensures
            *final(self) == spec_folded(*old(self), value),
            old(self).wf() ==> final(self).wf(),
    {
        if value > self.max_result {
            self.max_result = value;
        }
        if value < self.min_result {
            self.min_result = value;
        }
        self.run_count = self.run_count + 1;
    }

    /// Absorb another accumulator. The combination is the same whichever
    /// operand absorbs the other and however a collection of accumulators is
    /// grouped; see the merge laws below.
    pub fn merge(&mut self, other: BatchRunData)
        requires
            old(self).run_count + other.run_count <= usize::MAX,
        ensures
            *final(self) == spec_merged(*old(self), other),
            old(self).wf() && other.wf() ==> final(self).wf(),
    {
        if other.max_result > self.max_result {
            self.max_result = other.max_result;
        }
        if other.min_result < self.min_result {
            self.min_result = other.min_result;
        }
        self.run_count = self.run_count + other.run_count;
    }
}

/// Law: merging is commutative — the combination does not depend on which
/// accumulator absorbs the other.
pub proof fn lemma_merge_commutative(a: BatchRunData, b: BatchRunData)
    ensures
        spec_merged(a, b) == spec_merged(b, a),
{
}

/// Law: merging is associative — folding a partition of trials group by
/// group gives the same accumulator for every grouping.
pub proof fn lemma_merge_associative(a: BatchRunData, b: BatchRunData, c: BatchRunData)
    requires
        a.run_count + b.run_count + c.run_count <= usize::MAX,
    ensures
        spec_merged(spec_merged(a, b), c) == spec_merged(a, spec_merged(b, c)),
{
}

/// Law: an empty accumulator is the neutral element of merging.
pub proof fn lemma_merge_identity(a: BatchRunData)
    requires
        a.wf(),
    ensures
        spec_merged(a, BatchRunData { min_result: u64::MAX, max_result: 0, run_count: 0 }) == a,
        spec_merged(BatchRunData { min_result: u64::MAX, max_result: 0, run_count: 0 }, a) == a,
{
}

/// Law: folding one outcome equals merging with a fresh accumulator that
/// holds just that outcome.
pub proof fn lemma_fold_is_merge_of_singleton(a: BatchRunData, value: u64)
    requires
        a.run_count < usize::MAX,
    ensures
        spec_folded(a, value) == spec_merged(
            a,
            spec_folded(BatchRunData { min_result: u64::MAX, max_result: 0, run_count: 0 }, value),
        ),
{
}

} // verus!
