use dwf::cli::Mode;
use dwf::config::Config;
use dwf::metrics::StepRecord;
use dwf::runner::{
    cargo_clippy_cmd, cargo_fmt_cmd, cargo_test_cmd, command_outcome, finalize_run, stages,
    step_record, trim_lines, CmdResult, Pipeline, Stage,
};

#[test]
fn trims_to_max_lines() {
    let s = "a\nb\nc\nd\ne\n";
    let out = trim_lines(s, 3);

    assert!(out.contains("a\nb\nc"));
    assert!(out.contains("truncated"));
    assert!(!out.contains("d\ne"));
}

#[test]
fn no_trim_when_short() {
    let s = "a\nb\n";
    let out = trim_lines(s, 5);
    assert_eq!(out, s);
}

#[test]
fn zero_max_returns_empty() {
    let s = "hello\nworld";
    let out = trim_lines(s, 0);
    assert!(out.is_empty());
}

#[test]
fn five_lines_cut_to_three_plus_marker() {
    let out = trim_lines("a\nb\nc\nd\ne\n", 3);
    assert_eq!(out, "a\nb\nc\n… (stderr truncated)\n");
    assert_eq!(out.lines().count(), 4);
}

#[test]
fn trim_handles_crlf_and_unterminated_last_line() {
    let out = trim_lines("x\r\ny\nz", 2);
    assert_eq!(out, "x\ny\n… (stderr truncated)\n");
    let same = trim_lines("x\r\ny\nz", 3);
    assert_eq!(same, "x\r\ny\nz");
}

#[test]
fn command_outcome_bounds_stderr() {
    let r = command_outcome(false, Some(101), "e1\ne2\ne3", 12, 1);
    assert!(!r.ok);
    assert_eq!(r.code, Some(101));
    assert_eq!(r.duration_ms, 12);
    assert_eq!(r.stderr, "e1\n… (stderr truncated)\n");
}

fn step(name: &str, ok: bool, ms: u64) -> StepRecord {
    StepRecord {
        name: name.to_string(),
        ok,
        exit_code: Some(if ok { 0 } else { 1 }),
        duration_ms: ms,
        stderr_excerpt: String::new(),
    }
}

#[test]
fn fail_fast_scenario() {
    let steps = vec![step("A", true, 100), step("B", false, 50)];
    let r = finalize_run("2024-01-01T00:00:00Z".to_string(), Mode::Fast, 170, steps);
    assert_eq!(r.steps.len(), 2);
    assert_eq!(r.steps[0].name, "A");
    assert_eq!(r.steps[1].name, "B");
    assert!(!r.ok);
    assert_eq!(r.failure_stage.as_deref(), Some("B"));
    assert_eq!(r.tts_ms, 150);
    assert_eq!(r.ttg_ms, None);
    assert_eq!(r.total_ms, 170);
}

#[test]
fn all_success_scenario() {
    let steps = vec![step("A", true, 80), step("B", true, 40)];
    let r = finalize_run("t".to_string(), Mode::Full, 125, steps);
    assert!(r.ok);
    assert_eq!(r.tts_ms, 125);
    assert_eq!(r.ttg_ms, Some(125));
    assert_eq!(r.total_ms, 125);
    assert_eq!(r.failure_stage, None);
    assert_eq!(r.mode, Mode::Full);
    assert_eq!(r.timestamp_rfc3339, "t");
}

#[test]
fn tts_saturates() {
    let steps = vec![step("A", true, u64::MAX), step("B", false, 5)];
    let r = finalize_run("t".to_string(), Mode::Fast, 1, steps);
    assert_eq!(r.tts_ms, u64::MAX);
}

fn outcome(ok: bool, ms: u64) -> CmdResult {
    CmdResult { ok, code: Some(if ok { 0 } else { 1 }), stderr: String::new(), duration_ms: ms }
}

#[test]
fn pipeline_stops_at_first_failure() {
    let mut p = Pipeline::new(Mode::Full);
    assert_eq!(p.next_stage(), Some(Stage::Fmt));
    p.record(&outcome(true, 100));
    assert_eq!(p.next_stage(), Some(Stage::Check));
    p.record(&outcome(false, 50));
    assert_eq!(p.next_stage(), None);
    let r = p.finish("t".to_string(), 160);
    assert_eq!(r.steps.len(), 2);
    assert_eq!(r.failure_stage.as_deref(), Some("check"));
    assert_eq!(r.tts_ms, 150);
    assert!(!r.ok);
}

#[test]
fn pipeline_runs_every_stage_of_mode() {
    let mut p = Pipeline::new(Mode::Fast);
    let mut names = Vec::new();
    while let Some(st) = p.next_stage() {
        names.push(st.name());
        p.record(&outcome(true, 10));
    }
    assert_eq!(names, vec!["fmt", "check", "clippy"]);
    let r = p.finish("t".to_string(), 30);
    assert!(r.ok);
    assert_eq!(r.ttg_ms, Some(30));
    assert_eq!(stages(Mode::Full), vec![Stage::Fmt, Stage::Check, Stage::Clippy, Stage::Test]);
}

#[test]
fn step_record_copies_outcome() {
    let r = CmdResult { ok: false, code: None, stderr: "boom".to_string(), duration_ms: 7 };
    let s = step_record("lint", &r);
    assert_eq!(s.name, "lint");
    assert!(!s.ok);
    assert_eq!(s.exit_code, None);
    assert_eq!(s.duration_ms, 7);
    assert_eq!(s.stderr_excerpt, "boom");
}

#[test]
fn commands_follow_configuration() {
    let f = cargo_fmt_cmd();
    assert_eq!(f.program, "cargo");
    assert_eq!(f.args, vec!["fmt", "--all", "--check"]);

    let mut cfg = Config::default();
    cfg.pipeline.all_features_in_full = true;
    cfg.pipeline.clippy_deny_warnings = true;
    let c = cargo_clippy_cmd(&cfg, Mode::Full);
    assert_eq!(c.args, vec!["clippy", "--all-targets", "--all-features", "--", "-D", "warnings"]);
    let c = cargo_clippy_cmd(&cfg, Mode::Fast);
    assert_eq!(c.args, vec!["clippy", "--all-targets", "--", "-D", "warnings"]);
    let t = cargo_test_cmd(&cfg, Mode::Full);
    assert_eq!(t.args, vec!["test", "-q", "--all-features"]);
    cfg.pipeline.all_features_in_full = false;
    cfg.pipeline.clippy_deny_warnings = false;
    let c = cargo_clippy_cmd(&cfg, Mode::Full);
    assert_eq!(c.args, vec!["clippy", "--all-targets"]);
    let t = cargo_test_cmd(&cfg, Mode::Full);
    assert_eq!(t.args, vec!["test", "-q"]);
}
