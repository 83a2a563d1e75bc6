//! Aggregates over loaded runs: counts, timing statistics and the
//! failure-stage histogram.

use crate::metrics::RunRecord;
use crate::stats::{average_spec, avg, median, median_spec};
use vstd::prelude::*;
use vstd::string::StrSliceExecFns;
use vstd::string::StringExecFns;

verus! {

/// Strict lexicographic order on texts, character by character.
pub open spec fn text_lt(a: Seq<char>, b: Seq<char>) -> bool
    decreases a.len(),
{
    if a.len() == 0 {
        b.len() > 0
    } else if b.len() == 0 {
        false
    } else if (a[0] as int) < (b[0] as int) {
        true
    } else if a[0] == b[0] {
        text_lt(a.drop_first(), b.drop_first())
    } else {
        false
    }
}

proof fn lemma_text_lt_total(a: Seq<char>, b: Seq<char>)
    requires
        a != b,
        !text_lt(a, b),
    ensures
        text_lt(b, a),
    decreases a.len(),
{
    if a.len() > 0 && b.len() > 0 && a[0] == b[0] {
        if a.drop_first() == b.drop_first() {
            assert(a =~= seq![a[0]] + a.drop_first());
            assert(b =~= seq![b[0]] + b.drop_first());
        }
        lemma_text_lt_total(a.drop_first(), b.drop_first());
    } else if a.len() == 0 {
        assert(b =~= a);
    } else if b.len() > 0 {
        assert(a[0] != b[0]);
    }
}

/// Whether `a` comes strictly before `b`.
fn text_less(a: &str, b: &str) -> (r: bool)
    ensures
        r == text_lt(a@, b@),
{
    let la = a.unicode_len();
    let lb = b.unicode_len();
    let mut i: usize = 0;
    proof {
        assert(a@.skip(0) =~= a@);
        assert(b@.skip(0) =~= b@);
    }
    while i < la && i < lb
        invariant
            la == a@.len(),
            lb == b@.len(),
            i <= la,
            i <= lb,
            text_lt(a@, b@) == text_lt(a@.skip(i as int), b@.skip(i as int)),
        decreases la - i,
    {
        let ca = a.get_char(i);
        let cb = b.get_char(i);
        proof {
            assert(a@.skip(i as int).drop_first() =~= a@.skip(i + 1));
            assert(b@.skip(i as int).drop_first() =~= b@.skip(i + 1));
        }
        if (ca as u32) < (cb as u32) {
            return true;
        }
        if ca != cb {
            return false;
        }
        i = i + 1;
    }
    i < lb
}

/// The histogram key of a run: its failure stage, or "unknown".
pub open spec fn stage_label(r: RunRecord) -> Seq<char> {
    match r.failure_stage {
        Some(s) => s@,
        None => "unknown"@,
    }
}

/// Number of failed runs of `runs` whose label is `k`.
pub open spec fn failures_at(runs: Seq<RunRecord>, k: Seq<char>) -> nat
    decreases runs.len(),
{
    if runs.len() == 0 {
        0
    } else {
        failures_at(runs.drop_last(), k) + if !runs.last().ok && stage_label(runs.last()) == k {
            1nat
        } else {
            0nat
        }
    }
}

proof fn lemma_failures_at_bound(runs: Seq<RunRecord>, k: Seq<char>)
    ensures
        failures_at(runs, k) <= runs.len(),
    decreases runs.len(),
{
    if runs.len() > 0 {
        lemma_failures_at_bound(runs.drop_last(), k);
    }
}

/// One bar of the failure-stage histogram.
#[derive(Clone, Debug)]
pub struct StageCount {
    pub stage: String,
    pub count: usize,
}

/// `h` counts, for each stage label, the failed runs of `runs` with it: keys
/// in strictly ascending order, each count positive, and every label of a
/// failed run present.
pub open spec fn is_histogram(h: Seq<StageCount>, runs: Seq<RunRecord>) -> bool {
    &&& forall|i: int| 0 <= i < h.len() - 1 ==> text_lt(#[trigger] h[i].stage@, h[i + 1].stage@)
    &&& forall|i: int, j: int| 0 <= i < h.len() && 0 <= j < h.len() && i != j ==> #[trigger] h[i].stage@
        != #[trigger] h[j].stage@
    &&& forall|i: int| 0 <= i < h.len() ==> #[trigger] h[i].count == failures_at(runs, h[i].stage@)
        && h[i].count > 0
    &&& forall|k: Seq<char>| #[trigger] failures_at(runs, k) > 0 ==> exists|i: int| 0 <= i < h.len() && #[trigger] h[i].stage@ == k
}

/// Counting one more failure at a label already present keeps the histogram.
proof fn lemma_histogram_bump(
    old_h: Seq<StageCount>,
    h: Seq<StageCount>,
    idx: int,
    prev: Seq<RunRecord>,
    next: Seq<RunRecord>,
    l: Seq<char>,
)
    requires
        is_histogram(old_h, prev),
        forall|k: Seq<char>| #[trigger] failures_at(next, k) == failures_at(prev, k) + (if k == l {
            1nat
        } else {
            0nat
        }),
        0 <= idx < old_h.len(),
        old_h[idx].stage@ == l,
        h.len() == old_h.len(),
        h[idx].stage@ == l,
        h[idx].count == old_h[idx].count + 1,
        forall|k: int| 0 <= k < h.len() && k != idx ==> h[k] == old_h[k],
    ensures
        is_histogram(h, next),
{
    assert forall|k: int| 0 <= k < h.len() implies #[trigger] h[k].count == failures_at(
        next,
        h[k].stage@,
    ) && h[k].count > 0 by {
        if k != idx {
            assert(old_h[k].stage@ != l);
        }
    }
    assert forall|k: Seq<char>| #[trigger] failures_at(next, k) > 0 implies exists|i: int|
        0 <= i < h.len() && #[trigger] h[i].stage@ == k by {
        if k != l {
            assert(failures_at(prev, k) > 0);
            let i = choose|i: int| 0 <= i < old_h.len() && #[trigger] old_h[i].stage@ == k;
            assert(h[i] == old_h[i]);
        } else {
            assert(h[idx].stage@ == k);
        }
    }
    assert forall|i: int| 0 <= i < h.len() - 1 implies text_lt(
        #[trigger] h[i].stage@,
        h[i + 1].stage@,
    ) by {
        assert(text_lt(old_h[i].stage@, old_h[i + 1].stage@));
    }
    assert forall|a: int, b: int| 0 <= a < h.len() && 0 <= b < h.len() && a != b implies #[trigger] h[a].stage@
        != #[trigger] h[b].stage@ by {
        assert(old_h[a].stage@ != old_h[b].stage@);
    }
}

/// Placing a new label with count one between its neighbours in order keeps
/// the histogram.
proof fn lemma_histogram_insert(
    old_h: Seq<StageCount>,
    h: Seq<StageCount>,
    pos: int,
    prev: Seq<RunRecord>,
    next: Seq<RunRecord>,
    l: Seq<char>,
)
    requires
        is_histogram(old_h, prev),
        forall|k: Seq<char>| #[trigger] failures_at(next, k) == failures_at(prev, k) + (if k == l {
            1nat
        } else {
            0nat
        }),
        0 <= pos <= old_h.len(),
        forall|k: int| 0 <= k < old_h.len() ==> old_h[k].stage@ != l,
        forall|k: int| 0 <= k < pos ==> text_lt(#[trigger] old_h[k].stage@, l),
        pos < old_h.len() ==> text_lt(l, old_h[pos].stage@),
        h.len() == old_h.len() + 1,
        h[pos].stage@ == l,
        h[pos].count == 1,
        forall|k: int| 0 <= k < pos ==> h[k] == old_h[k],
        forall|k: int| pos < k < h.len() ==> h[k] == old_h[k - 1],
    ensures
        is_histogram(h, next),
{
    assert(failures_at(prev, l) == 0);
    assert forall|k: int| 0 <= k < h.len() implies #[trigger] h[k].count == failures_at(
        next,
        h[k].stage@,
    ) && h[k].count > 0 by {
        if k < pos {
            assert(h[k] == old_h[k]);
        } else if k > pos {
            assert(h[k] == old_h[k - 1]);
        }
    }
    assert forall|k: Seq<char>| #[trigger] failures_at(next, k) > 0 implies exists|i: int|
        0 <= i < h.len() && #[trigger] h[i].stage@ == k by {
        if k != l {
            assert(failures_at(prev, k) > 0);
            let i = choose|i: int| 0 <= i < old_h.len() && #[trigger] old_h[i].stage@ == k;
            if i < pos {
                assert(h[i] == old_h[i]);
            } else {
                assert(h[i + 1] == old_h[i]);
            }
        } else {
            assert(h[pos].stage@ == k);
        }
    }
    assert forall|i: int| 0 <= i < h.len() - 1 implies text_lt(
        #[trigger] h[i].stage@,
        h[i + 1].stage@,
    ) by {
        if i + 1 < pos {
            assert(text_lt(old_h[i].stage@, old_h[i + 1].stage@));
        } else if i > pos {
            assert(h[i] == old_h[i - 1]);
            assert(text_lt(old_h[i - 1].stage@, old_h[i].stage@));
        } else if i + 1 == pos {
            assert(h[i] == old_h[i]);
        } else {
            assert(h[i + 1] == old_h[i]);
        }
    }
    assert forall|a: int, b: int| 0 <= a < h.len() && 0 <= b < h.len() && a != b implies #[trigger] h[a].stage@
        != #[trigger] h[b].stage@ by {
        let oa = if a < pos { a } else { a - 1 };
        let ob = if b < pos { b } else { b - 1 };
        if a != pos && b != pos {
            assert(h[a] == old_h[oa]);
            assert(h[b] == old_h[ob]);
            assert(old_h[oa].stage@ != old_h[ob].stage@);
        } else if a == pos {
            assert(h[b] == old_h[ob]);
        } else {
            assert(h[a] == old_h[oa]);
        }
    }
}

/// Counts failed runs by failure stage ("unknown" when a failed run names
/// none), in ascending order of stage name.
#[verifier::loop_isolation(false)]
pub fn failure_histogram(runs: &[RunRecord]) -> (h: Vec<StageCount>)
    ensures
        is_histogram(h@, runs@),
{
    let mut h: Vec<StageCount> = Vec::new();
    let mut j: usize = 0;
    while j < runs.len()
        invariant
            j <= runs@.len(),
            is_histogram(h@, runs@.take(j as int)),
            h@.len() <= j,
        decreases runs@.len() - j,
    {
        let ghost prev = runs@.take(j as int);
        let ghost next = runs@.take(j + 1);
        proof {
            assert(next.drop_last() =~= prev);
        }
        let r = &runs[j];
        proof {
            assert(next.last() == runs@[j as int]);
        }
        if !r.ok {
            let label = match &r.failure_stage {
                Some(s) => String::from_str(s.as_str()),
                None => String::from_str("unknown"),
            };
            let ghost l = label@;
            proof {
                reveal_strlit("unknown");
                assert(stage_label(runs@[j as int]) == l);
            }
            let mut idx: usize = 0;
            let mut found: bool = false;
            while idx < h.len() && !found
                invariant
                    idx <= h@.len(),
                    forall|k: int| 0 <= k < idx ==> h@[k].stage@ != l,
                    found ==> idx < h@.len() && h@[idx as int].stage@ == l,
                decreases h@.len() - idx + (if found { 0int } else { 1int }),
            {
                if h[idx].stage == label {
                    found = true;
                } else {
                    idx = idx + 1;
                }
            }
            proof {
                assert forall|k: Seq<char>| #[trigger] failures_at(next, k) == failures_at(prev, k) + (
                if k == l {
                    1nat
                } else {
                    0nat
                }) by {}
            }
            if found {
                let ghost old_h = h@;
                proof {
                    lemma_failures_at_bound(prev, l);
                }
                let c = h[idx].count;
                h.set(idx, StageCount { stage: label, count: c + 1 });
                proof {
                    lemma_histogram_bump(old_h, h@, idx as int, prev, next, l);
                }
            } else {
                let mut pos: usize = 0;
                while pos < h.len() && text_less(h[pos].stage.as_str(), label.as_str())
                    invariant
                        pos <= h@.len(),
                        forall|k: int| 0 <= k < pos ==> text_lt(#[trigger] h@[k].stage@, l),
                    decreases h@.len() - pos,
                {
                    pos = pos + 1;
                }
                let ghost old_h = h@;
                proof {
                    if pos < h@.len() {
                        lemma_text_lt_total(h@[pos as int].stage@, l);
                    }
                }
                h.insert(pos, StageCount { stage: label, count: 1 });
                proof {
                    lemma_histogram_insert(old_h, h@, pos as int, prev, next, l);
                }
            }
        } else {
            proof {
                assert forall|k: Seq<char>| #[trigger] failures_at(next, k) == failures_at(prev, k) by {}
            }
        }
        j = j + 1;
    }
    proof {
        assert(runs@.take(j as int) =~= runs@);
    }
    h
}

pub open spec fn tts_values(runs: Seq<RunRecord>) -> Seq<u64> {
    runs.map_values(|r: RunRecord| r.tts_ms)
}

/// Time to green of the successful runs, in order.
pub open spec fn ttg_values(runs: Seq<RunRecord>) -> Seq<u64>
    decreases runs.len(),
{
    if runs.len() == 0 {
        Seq::empty()
    } else {
        let rest = ttg_values(runs.drop_last());
        match runs.last().ttg_ms {
            Some(t) => rest.push(t),
            None => rest,
        }
    }
}

/// Number of successful runs.
pub open spec fn ok_runs(runs: Seq<RunRecord>) -> nat
    decreases runs.len(),
{
    if runs.len() == 0 {
        0
    } else {
        ok_runs(runs.drop_last()) + if runs.last().ok {
            1nat
        } else {
            0nat
        }
    }
}

/// What the report shows of a set of runs.
#[derive(Clone, Debug)]
pub struct RunSummary {
    pub count: usize,
    pub ok_count: usize,
    pub fail_count: usize,
    pub avg_tts: u64,
    pub med_tts: u64,
    /// Absent when no run reached green.
    pub avg_ttg: Option<u64>,
    pub med_ttg: Option<u64>,
    pub failure_stages: Vec<StageCount>,
}

/// Counts, time-to-signal and time-to-green statistics, and the
/// failure-stage histogram of `runs`.
pub fn summarize_runs(runs: &[RunRecord]) -> (r: RunSummary)
    ensures
        r.count == runs@.len(),
        r.ok_count == ok_runs(runs@),
        r.fail_count == runs@.len() - ok_runs(runs@),
        r.avg_tts == average_spec(tts_values(runs@)),
        r.med_tts == median_spec(tts_values(runs@)),
        ttg_values(runs@).len() == 0 ==> r.avg_ttg is None && r.med_ttg is None,
        ttg_values(runs@).len() > 0 ==> r.avg_ttg == Some(average_spec(ttg_values(runs@)) as u64)
            && r.med_ttg == Some(median_spec(ttg_values(runs@)) as u64),
        is_histogram(r.failure_stages@, runs@),
{
    let mut tts: Vec<u64> = Vec::new();
    let mut ttg: Vec<u64> = Vec::new();
    let mut ok_count: usize = 0;
    let mut i: usize = 0;
    while i < runs.len()
        invariant
            i <= runs@.len(),
            tts@ == tts_values(runs@.take(i as int)),
            ttg@ == ttg_values(runs@.take(i as int)),
            ok_count == ok_runs(runs@.take(i as int)),
            ok_count <= i,
        decreases runs@.len() - i,
    {
        proof {
            assert(runs@.take(i + 1).drop_last() =~= runs@.take(i as int));
            assert(tts_values(runs@.take(i + 1)) =~= tts_values(runs@.take(i as int)).push(
                runs@[i as int].tts_ms,
            ));
        }
        let r = &runs[i];
        tts.push(r.tts_ms);
        match r.ttg_ms {
            Some(t) => ttg.push(t),
            None => {},
        }
        if r.ok {
            ok_count = ok_count + 1;
        }
        i = i + 1;
    }
    proof {
        assert(runs@.take(i as int) =~= runs@);
        crate::stats::lemma_average_fits(ttg@);
    }
    let avg_tts = avg(tts.as_slice());
    let med_tts = median(tts.as_slice());
    let avg_ttg = if ttg.len() == 0 { None } else { Some(avg(ttg.as_slice())) };
    let med_ttg = if ttg.len() == 0 { None } else { Some(median(ttg.as_slice())) };
    let failure_stages = failure_histogram(runs);
    RunSummary {
        count: runs.len(),
        ok_count,
        fail_count: runs.len() - ok_count,
        avg_tts,
        med_tts,
        avg_ttg,
        med_ttg,
        failure_stages,
    }
}

} // verus!
