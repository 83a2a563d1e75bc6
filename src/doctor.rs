//! Threshold heuristics over the per-stage timings of recent runs.

use crate::metrics::{RunRecord, StepRecord};
use crate::stats::{median, median_spec};
use vstd::prelude::*;
use vstd::string::StringExecFns;

verus! {

/// Durations of the steps named `name`, in order.
pub open spec fn step_durations(steps: Seq<StepRecord>, name: Seq<char>) -> Seq<u64>
    decreases steps.len(),
{
    if steps.len() == 0 {
        Seq::empty()
    } else {
        let rest = step_durations(steps.drop_last(), name);
        if steps.last().name@ == name {
            rest.push(steps.last().duration_ms)
        } else {
            rest
        }
    }
}

/// Durations of the steps named `name` over all runs, run by run.
pub open spec fn stage_durations_spec(runs: Seq<RunRecord>, name: Seq<char>) -> Seq<u64>
    decreases runs.len(),
{
    if runs.len() == 0 {
        Seq::empty()
    } else {
        stage_durations_spec(runs.drop_last(), name) + step_durations(runs.last().steps@, name)
    }
}

pub open spec fn sat_mul(x: u64, k: u64) -> int {
    if x * k > u64::MAX {
        u64::MAX as int
    } else {
        x * k
    }
}

/// Lint dominates: both medians are known and lint takes more than twice the build check.
pub open spec fn clippy_dominates_spec(check: u64, clippy: u64) -> bool {
    clippy > 0 && check > 0 && clippy > sat_mul(check, 2)
}

/// Tests dominate: the test median exceeds three times the build-check
/// median (taken as at least 1).
pub open spec fn tests_dominate_spec(check: u64, test: u64) -> bool {
    test > 0 && test > sat_mul(if check > 1 { check } else { 1 }, 3)
}

/// `x * k`, or the largest `u64` when the product does not fit.
fn saturating_times(x: u64, k: u64) -> (r: u64)
    requires
        k > 0,
    ensures
        r == sat_mul(x, k),
{
    if x > u64::MAX / k {
        proof {
            assert(x * k > u64::MAX) by (nonlinear_arith)
                requires
                    x > u64::MAX / k,
                    k > 0,
            ;
        }
        u64::MAX
    } else {
        proof {
            assert(x * k <= u64::MAX) by (nonlinear_arith)
                requires
                    x <= u64::MAX / k,
                    k > 0,
            ;
        }
        x * k
    }
}

/// Medians of the stages and the advice they lead to.
#[derive(Clone, Debug)]
pub struct TimingAdvice {
    pub med_check: u64,
    pub med_clippy: u64,
    pub med_test: u64,
    pub clippy_dominates: bool,
    pub tests_dominate: bool,
}

/// Durations of the steps named `name` over all runs, run by run.
pub fn stage_durations(runs: &[RunRecord], name: &str) -> (r: Vec<u64>)
    ensures
        r@ == stage_durations_spec(runs@, name@),
{
    let target = String::from_str(name);
    let mut out: Vec<u64> = Vec::new();
    let mut i: usize = 0;
    while i < runs.len()
        invariant
            i <= runs@.len(),
            target@ == name@,
            out@ == stage_durations_spec(runs@.take(i as int), name@),
        decreases runs@.len() - i,
    {
        proof {
            assert(runs@.take(i + 1).drop_last() =~= runs@.take(i as int));
        }
        let steps = &runs[i].steps;
        let ghost base = out@;
        let mut j: usize = 0;
        while j < steps.len()
            invariant
                j <= steps@.len(),
                target@ == name@,
                out@ == base + step_durations(steps@.take(j as int), name@),
            decreases steps@.len() - j,
        {
            proof {
                assert(steps@.take(j + 1).drop_last() =~= steps@.take(j as int));
            }
            if steps[j].name == target {
                out.push(steps[j].duration_ms);
            }
            proof {
                assert(out@ =~= base + step_durations(steps@.take(j + 1), name@));
            }
            j = j + 1;
        }
        proof {
            assert(steps@.take(j as int) =~= steps@);
        }
        i = i + 1;
    }
    proof {
        assert(runs@.take(i as int) =~= runs@);
    }
    out
}

/// Medians of the build-check, lint and test durations of `runs` (0 where a
/// stage never ran), and whether lint or tests dominate.
pub fn timing_advice(runs: &[RunRecord]) -> (r: TimingAdvice)
    ensures
        r.med_check == median_spec(stage_durations_spec(runs@, "check"@)),
        r.med_clippy == median_spec(stage_durations_spec(runs@, "clippy"@)),
        r.med_test == median_spec(stage_durations_spec(runs@, "test"@)),
        r.clippy_dominates == clippy_dominates_spec(r.med_check, r.med_clippy),
        r.tests_dominate == tests_dominate_spec(r.med_check, r.med_test),
{
    let check_ms = stage_durations(runs, "check");
    let clippy_ms = stage_durations(runs, "clippy");
    let test_ms = stage_durations(runs, "test");
    let med_check = median(check_ms.as_slice());
    let med_clippy = median(clippy_ms.as_slice());
    let med_test = median(test_ms.as_slice());
    let clippy_dominates = med_clippy > 0 && med_check > 0 && med_clippy > saturating_times(med_check, 2);
    let base = if med_check > 1 { med_check } else { 1 };
    let tests_dominate = med_test > 0 && med_test > saturating_times(base, 3);
    TimingAdvice { med_check, med_clippy, med_test, clippy_dominates, tests_dominate }
}

} // verus!
