//! Run outcomes and the selection of the most recent ones from the log.

use crate::cli::Mode;
use crate::runner::{lines_of, split_lines, text_of};
use vstd::string::StrSliceExecFns;
use vstd::prelude::*;

verus! {

/// Outcome of one stage.
#[derive(Clone, Debug)]
pub struct StepRecord {
    pub name: String,
    pub ok: bool,
    /// Absent when the process was ended by a signal.
    pub exit_code: Option<i32>,
    pub duration_ms: u64,
    pub stderr_excerpt: String,
}

/// Outcome of one pipeline invocation.
#[derive(Clone, Debug)]
pub struct RunRecord {
    pub timestamp_rfc3339: String,
    pub mode: Mode,
    pub ok: bool,
    /// Time to signal: up to and including the first failing stage, else the total.
    pub tts_ms: u64,
    /// Time to green: the total, present only for a successful run.
    pub ttg_ms: Option<u64>,
    pub total_ms: u64,
    pub steps: Vec<StepRecord>,
    /// Name of the first failing stage.
    pub failure_stage: Option<String>,
}

/// `s` without its leading and trailing white space.
pub uninterp spec fn trimmed(s: Seq<char>) -> Seq<char>;

/// Relies on `str::trim`: the text without leading and trailing white space;
/// an empty text stays empty.
#[verifier::external_body]
fn trim_text(s: &str) -> (r: &str)
    ensures
        r@ == trimmed(s@),
        s@.len() == 0 ==> r@.len() == 0,
{
    s.trim()
}

/// The lines among `ls` that hold more than white space, in order.
pub open spec fn entries_of(ls: Seq<Seq<char>>) -> Seq<Seq<char>>
    decreases ls.len(),
{
    if ls.len() == 0 {
        Seq::empty()
    } else {
        let rest = entries_of(ls.drop_last());
        if trimmed(ls.last()).len() > 0 {
            rest.push(ls.last())
        } else {
            rest
        }
    }
}

/// The entries of a log text: its lines, without those that are blank.
pub fn log_entries(text: &str) -> (r: Vec<String>)
    ensures
        text_of(r@) == entries_of(lines_of(text@)),
{
    let mut lines = split_lines(text);
    let ghost all = text_of(lines@);
    let mut rev: Vec<String> = Vec::new();
    let mut i: usize = lines.len();
    while i > 0
        invariant
            i == lines@.len(),
            i <= all.len(),
            text_of(lines@) == all.take(i as int),
            rev@.len() == all.len() - i,
            forall|k: int| 0 <= k < rev@.len() ==> rev@[k]@ == all[all.len() - 1 - k],
        decreases i,
    {
        let ghost before = lines@;
        let x = lines.pop().unwrap();
        proof {
            assert(x == before[i - 1]);
            assert(text_of(before)[i - 1] == all.take(i as int)[i - 1]);
            assert(x@ == all[i - 1]);
        }
        rev.push(x);
        i = i - 1;
        proof {
            assert(text_of(lines@) =~= all.take(i as int));
        }
    }
    let mut out: Vec<String> = Vec::new();
    let mut j: usize = rev.len();
    while j > 0
        invariant
            j == rev@.len(),
            j <= all.len(),
            forall|k: int| 0 <= k < rev@.len() ==> rev@[k]@ == all[all.len() - 1 - k],
            text_of(out@) == entries_of(all.take(all.len() - j)),
        decreases j,
    {
        let x = rev.pop().unwrap();
        proof {
            let m = all.len() - j;
            assert(all.take(m + 1).drop_last() =~= all.take(m));
            assert(x@ == all[m]);
        }
        let blank = trim_text(x.as_str()).unicode_len() == 0;
        if !blank {
            out.push(x);
        }
        j = j - 1;
        proof {
            let m = all.len() - j;
            assert(text_of(out@) =~= entries_of(all.take(m)));
        }
    }
    proof {
        assert(all.take(all.len() as int) =~= all);
    }
    out
}

/// The records that decoded, in log order.
pub open spec fn decoded(lines: Seq<Option<RunRecord>>) -> Seq<RunRecord>
    decreases lines.len(),
{
    if lines.len() == 0 {
        Seq::empty()
    } else {
        let rest = decoded(lines.drop_last());
        match lines.last() {
            Some(r) => rest.push(r),
            None => rest,
        }
    }
}

/// The last `n` of `s` (all of them when there are fewer), in their order.
pub open spec fn last_n(s: Seq<RunRecord>, n: nat) -> Seq<RunRecord> {
    if s.len() <= n {
        s
    } else {
        s.skip(s.len() - n)
    }
}

/// From the decoding outcome of each log line, in log order (`None` for a
/// line that did not decode), keeps the records that decoded and returns the
/// last `last` of them in log order.
pub fn select_last_runs(lines: Vec<Option<RunRecord>>, last: usize) -> (r: Vec<RunRecord>)
    ensures
        r@ == last_n(decoded(lines@), last as nat),
{
    let ghost all = lines@;
    let mut count: usize = 0;
    let mut n: usize = 0;
    while n < lines.len()
        invariant
            n <= all.len(),
            lines@ == all,
            count == decoded(all.take(n as int)).len(),
            count <= n,
        decreases all.len() - n,
    {
        proof {
            assert(all.take(n + 1).drop_last() =~= all.take(n as int));
        }
        if lines[n].is_some() {
            count = count + 1;
        }
        n = n + 1;
    }
    proof {
        assert(all.take(all.len() as int) =~= all);
    }
    if last == 0 || count == 0 {
        let empty: Vec<RunRecord> = Vec::new();
        proof {
            assert(last_n(decoded(all), last as nat) =~= empty@);
        }
        return empty;
    }
    let skip: usize = count.saturating_sub(last);
    // reverse once, so that each line is moved out from the front in turn
    let mut lines = lines;
    let mut taken: Vec<Option<RunRecord>> = Vec::new();
    let mut i: usize = lines.len();
    while i > 0
        invariant
            i == lines@.len(),
            i <= all.len(),
            lines@ == all.take(i as int),
            taken@.len() == all.len() - i,
            forall|k: int| 0 <= k < taken@.len() ==> taken@[k] == all[all.len() - 1 - k],
        decreases i,
    {
        let x = lines.pop().unwrap();
        taken.push(x);
        i = i - 1;
        proof {
            assert(lines@ =~= all.take(i as int));
        }
    }
    let mut runs: Vec<RunRecord> = Vec::new();
    let mut seen: usize = 0;
    let mut j: usize = taken.len();
    while j > 0
        invariant
            j == taken@.len(),
            j <= all.len(),
            forall|k: int| 0 <= k < taken@.len() ==> taken@[k] == all[all.len() - 1 - k],
            seen == decoded(all.take(all.len() - j)).len(),
            seen <= count,
            count == decoded(all).len(),
            runs@ == (if seen <= skip {
                Seq::<RunRecord>::empty()
            } else {
                decoded(all.take(all.len() - j)).skip(skip as int)
            }),
        decreases j,
    {
        let x = taken.pop().unwrap();
        proof {
            let m = all.len() - j;
            assert(all.take(m + 1).drop_last() =~= all.take(m));
            assert(x == all[m]);
            lemma_decoded_prefix_len(all, m + 1);
        }
        match x {
            Some(rec) => {
                if seen >= skip {
                    runs.push(rec);
                }
                seen = seen + 1;
            },
            None => {},
        }
        j = j - 1;
        proof {
            let m = all.len() - j;
            let d = decoded(all.take(m));
            if seen > skip {
                assert(runs@ =~= d.skip(skip as int));
            }
        }
    }
    proof {
        assert(all.take(all.len() as int) =~= all);
        assert(runs@ =~= last_n(decoded(all), last as nat));
    }
    runs
}

proof fn lemma_decoded_prefix_len(s: Seq<Option<RunRecord>>, m: int)
    requires
        0 <= m <= s.len(),
    ensures
        decoded(s.take(m)).len() <= decoded(s).len(),
    decreases s.len(),
{
    if m < s.len() {
        assert(s.drop_last().take(m) =~= s.take(m));
        lemma_decoded_prefix_len(s.drop_last(), m);
    } else {
        assert(s.take(m) =~= s);
    }
}

/// Each record as a line that decoded.
pub open spec fn as_decoded(s: Seq<RunRecord>) -> Seq<Option<RunRecord>> {
    s.map_values(|r: RunRecord| Some(r))
}

proof fn lemma_decoded_concat(a: Seq<Option<RunRecord>>, b: Seq<Option<RunRecord>>)
    ensures
        decoded(a + b) == decoded(a) + decoded(b),
    decreases b.len(),
{
    if b.len() == 0 {
        assert(a + b =~= a);
        assert(decoded(a) + decoded(b) =~= decoded(a));
    } else {
        assert((a + b).drop_last() =~= a + b.drop_last());
        lemma_decoded_concat(a, b.drop_last());
        assert(decoded(a + b) =~= decoded(a) + decoded(b));
    }
}

proof fn lemma_decoded_all(s: Seq<RunRecord>)
    ensures
        decoded(as_decoded(s)) == s,
    decreases s.len(),
{
    if s.len() > 0 {
        assert(as_decoded(s).drop_last() =~= as_decoded(s.drop_last()));
        lemma_decoded_all(s.drop_last());
        assert(s.drop_last().push(s.last()) =~= s);
    }
}

/// A log of valid lines with one malformed line among them loads as exactly
/// the valid records, in log order, when at least that many are asked for.
pub proof fn lemma_malformed_line_skipped(before: Seq<RunRecord>, after: Seq<RunRecord>, last: nat)
    requires
        last >= before.len() + after.len(),
    ensures
        last_n(decoded(as_decoded(before) + seq![None] + as_decoded(after)), last) == before + after,
{
    lemma_decoded_concat(as_decoded(before) + seq![None], as_decoded(after));
    lemma_decoded_concat(as_decoded(before), seq![None]);
    lemma_decoded_all(before);
    lemma_decoded_all(after);
    let none: Seq<Option<RunRecord>> = seq![None];
    assert(none.drop_last() =~= Seq::<Option<RunRecord>>::empty());
    assert(none.len() == 1 && none.last() == None::<RunRecord>);
    assert(decoded(none.drop_last()) =~= Seq::<RunRecord>::empty());
    assert(decoded(none) =~= Seq::<RunRecord>::empty());
    assert(before + Seq::<RunRecord>::empty() =~= before);
}

/// Asking for no runs gives none, whatever the log holds.
pub proof fn lemma_load_none(lines: Seq<Option<RunRecord>>)
    ensures
        last_n(decoded(lines), 0) == Seq::<RunRecord>::empty(),
{
    assert(last_n(decoded(lines), 0) =~= Seq::<RunRecord>::empty());
}

} // verus!
