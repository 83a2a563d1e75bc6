//! The fail-fast pipeline: stage lists, commands, stderr excerpts, the run
//! state machine and the finalisation of a run.

use crate::cli::Mode;
use crate::config::Config;
use crate::metrics::{RunRecord, StepRecord};
use vstd::prelude::*;
use vstd::string::StringExecFns;

verus! {

/// Lines of `s` scanned up to position `i`: the finished lines, and the
/// characters of the line in progress.
pub open spec fn scan_lines(s: Seq<char>, i: int) -> (Seq<Seq<char>>, Seq<char>)
    decreases i,
{
    if i <= 0 {
        (Seq::empty(), Seq::empty())
    } else {
        let (done, cur) = scan_lines(s, i - 1);
        if s[i - 1] == '\n' {
            (done.push(strip_cr(cur)), Seq::empty())
        } else {
            (done, cur.push(s[i - 1]))
        }
    }
}

/// A line ended by `\n` loses one `\r` just before the `\n`.
pub open spec fn strip_cr(line: Seq<char>) -> Seq<char> {
    if line.len() > 0 && line.last() == '\r' {
        line.drop_last()
    } else {
        line
    }
}

/// The lines of `s`: split at `\n` (or `\r\n`); a final line without a line
/// ending counts when it is not empty.
pub open spec fn lines_of(s: Seq<char>) -> Seq<Seq<char>> {
    let (done, cur) = scan_lines(s, s.len() as int);
    if cur.len() > 0 {
        done.push(cur)
    } else {
        done
    }
}

/// The lines joined with `\n` between them.
pub open spec fn join_lines(ls: Seq<Seq<char>>) -> Seq<char>
    decreases ls.len(),
{
    if ls.len() == 0 {
        Seq::empty()
    } else if ls.len() == 1 {
        ls[0]
    } else {
        join_lines(ls.drop_last()) + seq!['\n'] + ls.last()
    }
}

pub open spec fn truncation_marker() -> Seq<char> {
    "\n… (stderr truncated)\n"@
}

/// The excerpt kept of `s`: nothing for `max_lines == 0`, `s` itself when it
/// has at most `max_lines` lines, else its first `max_lines` lines followed by
/// the truncation marker.
pub open spec fn excerpt_of(s: Seq<char>, max_lines: nat) -> Seq<char> {
    if max_lines == 0 {
        Seq::empty()
    } else if lines_of(s).len() <= max_lines {
        s
    } else {
        join_lines(lines_of(s).take(max_lines as int)) + truncation_marker()
    }
}

pub open spec fn text_of(v: Seq<String>) -> Seq<Seq<char>> {
    v.map_values(|x: String| x@)
}

/// Relies on `str::lines`: the lines of `s`, split at `\n` or `\r\n`, without
/// their line endings, and with no empty line after a final line ending.
#[verifier::external_body]
pub(crate) fn split_lines(s: &str) -> (r: Vec<String>)
    ensures
        text_of(r@) == lines_of(s@),
{
    s.lines().map(|l| l.to_string()).collect()
}

/// Bounds a stderr text to `max_lines` lines (see `excerpt_of`).
pub fn trim_lines(s: &str, max_lines: usize) -> (r: String)
    ensures
        r@ == excerpt_of(s@, max_lines as nat),
{
    if max_lines == 0 {
        return String::new();
    }
    let lines = split_lines(s);
    if lines.len() <= max_lines {
        return String::from_str(s);
    }
    let mut out = String::new();
    let mut i: usize = 0;
    while i < max_lines
        invariant
            i <= max_lines < lines@.len(),
            text_of(lines@) == lines_of(s@),
            out@ == join_lines(text_of(lines@).take(i as int)),
        decreases max_lines - i,
    {
        let ghost ls = text_of(lines@);
        if i > 0 {
            out.append("\n");
        }
        out.append(lines[i].as_str());
        proof {
            reveal_strlit("\n");
            assert(ls.take(i + 1).drop_last() =~= ls.take(i as int));
            assert(ls[i as int] == lines@[i as int]@);
            if i == 0 {
                assert(ls.take(1) =~= seq![ls[0]]);
            }
        }
        i = i + 1;
    }
    out.append("\n… (stderr truncated)\n");
    out
}

/// What one finished command reports.
#[derive(Clone, Debug)]
pub struct CmdResult {
    pub ok: bool,
    pub code: Option<i32>,
    pub stderr: String,
    pub duration_ms: u64,
}

/// The outcome of a finished command, with its stderr bounded to `max_lines`.
pub fn command_outcome(
    ok: bool,
    code: Option<i32>,
    stderr_raw: &str,
    duration_ms: u64,
    max_lines: usize,
) -> (r: CmdResult)
    ensures
        r.ok == ok,
        r.code == code,
        r.stderr@ == excerpt_of(stderr_raw@, max_lines as nat),
        r.duration_ms == duration_ms,
{
    let stderr = trim_lines(stderr_raw, max_lines);
    CmdResult { ok, code, stderr, duration_ms }
}

/// The step record of stage `name` from a command's outcome.
pub fn step_record(name: &str, r: &CmdResult) -> (s: StepRecord)
    ensures
        s.name@ == name@,
        s.ok == r.ok,
        s.exit_code == r.code,
        s.duration_ms == r.duration_ms,
        s.stderr_excerpt@ == r.stderr@,
{
    StepRecord {
        name: String::from_str(name),
        ok: r.ok,
        exit_code: r.code,
        duration_ms: r.duration_ms,
        stderr_excerpt: String::from_str(r.stderr.as_str()),
    }
}

/// Index of the first failing step, or the number of steps when none failed.
pub open spec fn first_failure(steps: Seq<StepRecord>) -> nat
    decreases steps.len(),
{
    if steps.len() == 0 {
        0
    } else if !steps[0].ok {
        0
    } else {
        1 + first_failure(steps.drop_first())
    }
}

/// Sum of the step durations.
pub open spec fn duration_sum(steps: Seq<StepRecord>) -> int
    decreases steps.len(),
{
    if steps.len() == 0 {
        0
    } else {
        duration_sum(steps.drop_last()) + steps.last().duration_ms as int
    }
}

pub open spec fn saturate(x: int) -> int {
    if x > u64::MAX {
        u64::MAX as int
    } else {
        x
    }
}

/// Time to signal: the durations up to and including the first failing step
/// (saturated at the largest `u64`), or the total when no step failed.
pub open spec fn tts_of(steps: Seq<StepRecord>, total_ms: u64) -> int {
    let f = first_failure(steps);
    if f < steps.len() {
        saturate(duration_sum(steps.take(f as int + 1)))
    } else {
        total_ms as int
    }
}

/// The record of a run whose executed steps are `steps` and whose wall-clock
/// time was `total_ms`.
pub open spec fn is_finalized(
    r: RunRecord,
    ts: Seq<char>,
    mode: Mode,
    total_ms: u64,
    steps: Seq<StepRecord>,
) -> bool {
    let f = first_failure(steps);
    &&& r.timestamp_rfc3339@ == ts
    &&& r.mode == mode
    &&& r.ok == (f == steps.len())
    &&& r.tts_ms == tts_of(steps, total_ms)
    &&& r.ttg_ms == (if r.ok { Some(total_ms) } else { None })
    &&& r.total_ms == total_ms
    &&& r.steps@ == steps
    &&& (if f < steps.len() {
        r.failure_stage is Some && r.failure_stage->Some_0@ == steps[f as int].name@
    } else {
        r.failure_stage is None
    })
}

proof fn lemma_first_failure(steps: Seq<StepRecord>)
    ensures
        first_failure(steps) <= steps.len(),
        forall|k: int| 0 <= k < first_failure(steps) ==> steps[k].ok,
        first_failure(steps) < steps.len() ==> !steps[first_failure(steps) as int].ok,
    decreases steps.len(),
{
    if steps.len() > 0 && steps[0].ok {
        lemma_first_failure(steps.drop_first());
        assert forall|k: int| 0 <= k < first_failure(steps) implies steps[k].ok by {
            if k > 0 {
                assert(steps[k] == steps.drop_first()[k - 1]);
            }
        }
    }
}

proof fn lemma_first_failure_at(steps: Seq<StepRecord>, j: int)
    requires
        0 <= j <= steps.len(),
        forall|k: int| 0 <= k < j ==> steps[k].ok,
        j < steps.len() ==> !steps[j].ok,
    ensures
        first_failure(steps) == j,
    decreases steps.len(),
{
    if steps.len() > 0 && j > 0 {
        lemma_first_failure_at(steps.drop_first(), j - 1);
    }
}

/// Builds the run record from the executed steps: `ok` when no step failed,
/// time to green equal to the total then, otherwise the first failing stage
/// and the time up to and including it.
pub fn finalize_run(ts: String, mode: Mode, total_ms: u64, steps: Vec<StepRecord>) -> (r: RunRecord)
    ensures
        is_finalized(r, ts@, mode, total_ms, steps@),
{
    let mut acc: u64 = 0;
    let mut i: usize = 0;
    let mut failed: bool = false;
    while i < steps.len() && !failed
        invariant
            i <= steps@.len(),
            forall|k: int| 0 <= k < i ==> steps@[k].ok,
            !failed ==> acc == saturate(duration_sum(steps@.take(i as int))),
            failed ==> i < steps@.len() && !steps@[i as int].ok
                && acc == saturate(duration_sum(steps@.take(i + 1))),
        decreases steps@.len() - i + (if failed { 0int } else { 1int }),
    {
        proof {
            assert(steps@.take(i + 1).drop_last() =~= steps@.take(i as int));
        }
        acc = acc.saturating_add(steps[i].duration_ms);
        if !steps[i].ok {
            failed = true;
        } else {
            i = i + 1;
        }
    }
    proof {
        lemma_first_failure_at(steps@, i as int);
    }
    let ok = !failed;
    let tts_ms = if failed { acc } else { total_ms };
    let ttg_ms = if ok { Some(total_ms) } else { None };
    let failure_stage = if failed { Some(String::from_str(steps[i].name.as_str())) } else { None };
    RunRecord { timestamp_rfc3339: ts, mode, ok, tts_ms, ttg_ms, total_ms, steps, failure_stage }
}

/// A stage of the pipeline.
#[derive(Clone, Copy, Debug, PartialEq, Eq, Structural)]
pub enum Stage {
    Fmt,
    Check,
    Clippy,
    Test,
}

pub open spec fn stage_name(st: Stage) -> Seq<char> {
    match st {
        Stage::Fmt => "fmt"@,
        Stage::Check => "check"@,
        Stage::Clippy => "clippy"@,
        Stage::Test => "test"@,
    }
}

/// The stages of a mode, in execution order.
pub open spec fn stage_list(mode: Mode) -> Seq<Stage> {
    match mode {
        Mode::Fast => seq![Stage::Fmt, Stage::Check, Stage::Clippy],
        Mode::Full => seq![Stage::Fmt, Stage::Check, Stage::Clippy, Stage::Test],
    }
}

impl Stage {
    /// The name under which the stage is recorded.
    pub fn name(&self) -> (r: &'static str)
        ensures
            r@ == stage_name(*self),
    {
        match self {
            Stage::Fmt => "fmt",
            Stage::Check => "check",
            Stage::Clippy => "clippy",
            Stage::Test => "test",
        }
    }
}

/// The stages of `mode`, in execution order.
pub fn stages(mode: Mode) -> (r: Vec<Stage>)
    ensures
        r@ == stage_list(mode),
{
    let mut v: Vec<Stage> = vec![Stage::Fmt, Stage::Check, Stage::Clippy];
    if mode == Mode::Full {
        v.push(Stage::Test);
    }
    proof {
        assert(v@ =~= stage_list(mode));
    }
    v
}

/// A program and its arguments.
#[derive(Clone, Debug)]
pub struct CommandSpec {
    pub program: String,
    pub args: Vec<String>,
}

fn push_arg(v: &mut Vec<String>, a: &str)
    ensures
        text_of(final(v)@) == text_of(old(v)@).push(a@),
{
    v.push(String::from_str(a));
    proof {
        assert(text_of(final(v)@) =~= text_of(old(v)@).push(a@));
    }
}

fn cargo_with(args: Vec<String>) -> (r: CommandSpec)
    ensures
        r.program@ == "cargo"@,
        r.args@ == args@,
{
    CommandSpec { program: String::from_str("cargo"), args }
}

/// `cargo fmt --all --check`
pub fn cargo_fmt_cmd() -> (r: CommandSpec)
    ensures
        r.program@ == "cargo"@,
        text_of(r.args@) == seq!["fmt"@, "--all"@, "--check"@],
{
    let mut a: Vec<String> = Vec::new();
    push_arg(&mut a, "fmt");
    push_arg(&mut a, "--all");
    push_arg(&mut a, "--check");
    proof {
        assert(text_of(Seq::<String>::empty()) =~= Seq::<Seq<char>>::empty());
        assert(text_of(a@) =~= seq!["fmt"@, "--all"@, "--check"@]);
    }
    cargo_with(a)
}

/// `cargo check -q`
pub fn cargo_check_cmd() -> (r: CommandSpec)
    ensures
        r.program@ == "cargo"@,
        text_of(r.args@) == seq!["check"@, "-q"@],
{
    let mut a: Vec<String> = Vec::new();
    push_arg(&mut a, "check");
    push_arg(&mut a, "-q");
    proof {
        assert(text_of(Seq::<String>::empty()) =~= Seq::<Seq<char>>::empty());
        assert(text_of(a@) =~= seq!["check"@, "-q"@]);
    }
    cargo_with(a)
}

/// Whether full mode asks for every feature.
pub open spec fn all_features(cfg: Config, mode: Mode) -> bool {
    mode == Mode::Full && cfg.pipeline.all_features_in_full
}

pub open spec fn clippy_args(cfg: Config, mode: Mode) -> Seq<Seq<char>> {
    let base = seq!["clippy"@, "--all-targets"@];
    let with_features = if all_features(cfg, mode) {
        base.push("--all-features"@)
    } else {
        base
    };
    if cfg.pipeline.clippy_deny_warnings {
        with_features + seq!["--"@, "-D"@, "warnings"@]
    } else {
        with_features
    }
}

pub open spec fn test_args(cfg: Config, mode: Mode) -> Seq<Seq<char>> {
    if all_features(cfg, mode) {
        seq!["test"@, "-q"@, "--all-features"@]
    } else {
        seq!["test"@, "-q"@]
    }
}

/// `cargo clippy --all-targets`, with `--all-features` in full mode when the
/// configuration asks for it, and `-- -D warnings` when warnings are denied.
pub fn cargo_clippy_cmd(cfg: &Config, mode: Mode) -> (r: CommandSpec)
    ensures
        r.program@ == "cargo"@,
        text_of(r.args@) == clippy_args(*cfg, mode),
{
    let mut a: Vec<String> = Vec::new();
    push_arg(&mut a, "clippy");
    push_arg(&mut a, "--all-targets");
    proof {
        assert(text_of(Seq::<String>::empty()) =~= Seq::<Seq<char>>::empty());
    }
    if mode == Mode::Full && cfg.pipeline.all_features_in_full {
        push_arg(&mut a, "--all-features");
    }
    if cfg.pipeline.clippy_deny_warnings {
        push_arg(&mut a, "--");
        push_arg(&mut a, "-D");
        push_arg(&mut a, "warnings");
    }
    proof {
        assert(text_of(a@) =~= clippy_args(*cfg, mode));
    }
    cargo_with(a)
}

/// `cargo test -q`, with `--all-features` in full mode when the configuration
/// asks for it.
pub fn cargo_test_cmd(cfg: &Config, mode: Mode) -> (r: CommandSpec)
    ensures
        r.program@ == "cargo"@,
        text_of(r.args@) == test_args(*cfg, mode),
{
    let mut a: Vec<String> = Vec::new();
    push_arg(&mut a, "test");
    push_arg(&mut a, "-q");
    proof {
        assert(text_of(Seq::<String>::empty()) =~= Seq::<Seq<char>>::empty());
    }
    if mode == Mode::Full && cfg.pipeline.all_features_in_full {
        push_arg(&mut a, "--all-features");
    }
    proof {
        assert(text_of(a@) =~= test_args(*cfg, mode));
    }
    cargo_with(a)
}

/// The command that runs `stage`.
pub fn stage_command(cfg: &Config, mode: Mode, stage: Stage) -> (r: CommandSpec)
    ensures
        r.program@ == "cargo"@,
        text_of(r.args@) == match stage {
            Stage::Fmt => seq!["fmt"@, "--all"@, "--check"@],
            Stage::Check => seq!["check"@, "-q"@],
            Stage::Clippy => clippy_args(*cfg, mode),
            Stage::Test => test_args(*cfg, mode),
        },
{
    match stage {
        Stage::Fmt => cargo_fmt_cmd(),
        Stage::Check => cargo_check_cmd(),
        Stage::Clippy => cargo_clippy_cmd(cfg, mode),
        Stage::Test => cargo_test_cmd(cfg, mode),
    }
}

/// A run in progress: the steps executed so far, in stage order.
#[derive(Clone, Debug)]
pub struct Pipeline {
    pub mode: Mode,
    pub steps: Vec<StepRecord>,
}

impl Pipeline {
    /// Steps follow the stage list of the mode, and only the last may have failed.
    pub open spec fn well_formed(&self) -> bool {
        let stages = stage_list(self.mode);
        &&& self.steps@.len() <= stages.len()
        &&& forall|i: int| 0 <= i < self.steps@.len() ==> #[trigger] self.steps@[i].name@
            == stage_name(stages[i])
        &&& forall|i: int| 0 <= i < self.steps@.len() - 1 ==> #[trigger] self.steps@[i].ok
    }

    /// No stage is left to run: all ran, or the last one failed.
    pub open spec fn is_done(&self) -> bool {
        ||| self.steps@.len() == stage_list(self.mode).len()
        ||| (self.steps@.len() > 0 && !self.steps@.last().ok)
    }

    /// A run of `mode` that has not started.
    pub fn new(mode: Mode) -> (r: Pipeline)
        ensures
            r.well_formed(),
            r.mode == mode,
            r.steps@.len() == 0,
    {
        Pipeline { mode, steps: Vec::new() }
    }

    /// The stage to run next, or `None` when the run is over.
    pub fn next_stage(&self) -> (r: Option<Stage>)
        requires
            self.well_formed(),
        ensures
            self.is_done() ==> r is None,
            !self.is_done() ==> r == Some(stage_list(self.mode)[self.steps@.len() as int]),
    {
        let n = self.steps.len();
        if n > 0 && !self.steps[n - 1].ok {
            return None;
        }
        let st = stages(self.mode);
        if n < st.len() {
            Some(st[n])
        } else {
            None
        }
    }

    /// Records the outcome of the stage that `next_stage` named.
    pub fn record(&mut self, r: &CmdResult)
        requires
            old(self).well_formed(),
            !old(self).is_done(),
        ensures
            final(self).well_formed(),
            final(self).mode == old(self).mode,
            final(self).steps@.len() == old(self).steps@.len() + 1,
            final(self).steps@.drop_last() == old(self).steps@,
            ({
                let s = final(self).steps@.last();
                &&& s.name@ == stage_name(stage_list(old(self).mode)[old(self).steps@.len() as int])
                &&& s.ok == r.ok
                &&& s.exit_code == r.code
                &&& s.duration_ms == r.duration_ms
                &&& s.stderr_excerpt@ == r.stderr@
            }),
            !r.ok ==> final(self).is_done(),
    {
        let st = stages(self.mode);
        let n = self.steps.len();
        let stage = st[n];
        let rec = step_record(stage.name(), r);
        self.steps.push(rec);
        proof {
            assert(final(self).steps@.drop_last() =~= old(self).steps@);
        }
    }

    /// Finalises the run with its timestamp and wall-clock time.
    pub fn finish(self, ts: String, total_ms: u64) -> (r: RunRecord)
        ensures
            is_finalized(r, ts@, self.mode, total_ms, self.steps@),
    {
        finalize_run(ts, self.mode, total_ms, self.steps)
    }
}

/// A run whose steps all succeeded is green: time to signal and time to
/// green both equal the total, and no failure stage is named.
pub proof fn lemma_all_success(r: RunRecord, ts: Seq<char>, mode: Mode, total_ms: u64, steps: Seq<StepRecord>)
    requires
        is_finalized(r, ts, mode, total_ms, steps),
        forall|i: int| 0 <= i < steps.len() ==> #[trigger] steps[i].ok,
    ensures
        r.ok,
        r.tts_ms == total_ms,
        r.ttg_ms == Some(total_ms),
        r.failure_stage is None,
{
    lemma_first_failure_at(steps, steps.len() as int);
}

/// A finished run whose last step failed stops there: it is not green, names
/// that step as its failure stage, and its time to signal is the sum of all
/// its step durations (saturated).
pub proof fn lemma_fail_fast(p: Pipeline, r: RunRecord, ts: Seq<char>, total_ms: u64)
    requires
        p.well_formed(),
        p.steps@.len() > 0,
        !p.steps@.last().ok,
        is_finalized(r, ts, p.mode, total_ms, p.steps@),
    ensures
        !r.ok,
        r.ttg_ms is None,
        r.failure_stage is Some && r.failure_stage->Some_0@ == p.steps@.last().name@,
        r.tts_ms == saturate(duration_sum(p.steps@)),
{
    let s = p.steps@;
    assert forall|k: int| 0 <= k < s.len() - 1 implies s[k].ok by {
        assert(p.steps@[k].ok);
    }
    lemma_first_failure_at(s, s.len() - 1);
    assert(s.take(s.len() as int) =~= s);
}

/// The excerpt is empty for a zero bound and the text itself when it has no
/// more lines than the bound.
pub proof fn lemma_excerpt_bounds(s: Seq<char>, max_lines: nat)
    ensures
        max_lines == 0 ==> excerpt_of(s, max_lines) == Seq::<char>::empty(),
        max_lines > 0 && lines_of(s).len() <= max_lines ==> excerpt_of(s, max_lines) == s,
        max_lines > 0 && lines_of(s).len() > max_lines ==> excerpt_of(s, max_lines) == join_lines(
            lines_of(s).take(max_lines as int),
        ) + truncation_marker(),
{
}

} // verus!
