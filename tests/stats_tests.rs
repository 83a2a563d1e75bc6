use dwf::cli::Mode;
use dwf::doctor::{stage_durations, timing_advice};
use dwf::metrics::{select_last_runs, RunRecord, StepRecord};
use dwf::report::{failure_histogram, summarize_runs};
use dwf::stats::{avg, median};

#[test]
fn median_edge_cases() {
    assert_eq!(median(&[]), 0);
    assert_eq!(median(&[5]), 5);
    assert_eq!(median(&[1, 2, 3, 4]), 2);
    assert_eq!(median(&[4, 1, 3, 2]), 2);
    assert_eq!(median(&[2, 1]), 1);
    assert_eq!(median(&[9, 1, 5]), 5);
    assert_eq!(median(&[3, 5]), 4);
    assert_eq!(median(&[u64::MAX, u64::MAX]), u64::MAX);
    assert_eq!(median(&[u64::MAX, u64::MAX - 2]), u64::MAX - 1);
}

#[test]
fn median_matches_mean_of_middles_rounded_down() {
    let v = [10u64, 7, 3, 8];
    let naive = ((7.0f64 + 8.0f64) / 2.0).floor() as u64;
    assert_eq!(median(&v), naive);
}

#[test]
fn average_edge_cases() {
    assert_eq!(avg(&[]), 0);
    assert_eq!(avg(&[1, 2]), 1);
    assert_eq!(avg(&[10, 20, 31]), 20);
    assert_eq!(avg(&[u64::MAX, u64::MAX, u64::MAX]), u64::MAX);
    assert_eq!(avg(&[u64::MAX, 1]), 1u64 << 63);
}

fn step(name: &str, ok: bool, ms: u64) -> StepRecord {
    StepRecord {
        name: name.to_string(),
        ok,
        exit_code: Some(0),
        duration_ms: ms,
        stderr_excerpt: String::new(),
    }
}

fn run(ok: bool, tts: u64, stage: Option<&str>, steps: Vec<StepRecord>) -> RunRecord {
    RunRecord {
        timestamp_rfc3339: "t".to_string(),
        mode: Mode::Fast,
        ok,
        tts_ms: tts,
        ttg_ms: if ok { Some(tts) } else { None },
        total_ms: tts,
        steps,
        failure_stage: stage.map(|s| s.to_string()),
    }
}

#[test]
fn malformed_line_is_skipped() {
    let lines = vec![
        Some(run(true, 1, None, vec![])),
        None,
        Some(run(true, 2, None, vec![])),
        Some(run(true, 3, None, vec![])),
    ];
    let r = select_last_runs(lines, 10);
    let tts: Vec<u64> = r.iter().map(|x| x.tts_ms).collect();
    assert_eq!(tts, vec![1, 2, 3]);
}

#[test]
fn keeps_only_last_n_in_order() {
    let lines = vec![
        Some(run(true, 1, None, vec![])),
        Some(run(true, 2, None, vec![])),
        None,
        Some(run(true, 3, None, vec![])),
    ];
    let r = select_last_runs(lines, 2);
    let tts: Vec<u64> = r.iter().map(|x| x.tts_ms).collect();
    assert_eq!(tts, vec![2, 3]);
}

#[test]
fn load_zero_or_nothing_is_empty() {
    let lines = vec![Some(run(true, 1, None, vec![]))];
    assert!(select_last_runs(lines, 0).is_empty());
    assert!(select_last_runs(vec![None, None], 5).is_empty());
    assert!(select_last_runs(Vec::new(), 5).is_empty());
}

#[test]
fn histogram_sorted_with_unknown() {
    let runs = vec![
        run(false, 5, Some("test"), vec![]),
        run(true, 5, None, vec![]),
        run(false, 5, None, vec![]),
        run(false, 5, Some("clippy"), vec![]),
        run(false, 5, Some("test"), vec![]),
    ];
    let h = failure_histogram(&runs);
    let got: Vec<(String, usize)> = h.iter().map(|b| (b.stage.clone(), b.count)).collect();
    assert_eq!(
        got,
        vec![("clippy".to_string(), 1), ("test".to_string(), 2), ("unknown".to_string(), 1)]
    );
}

#[test]
fn summary_of_runs() {
    let runs = vec![
        run(true, 100, None, vec![]),
        run(false, 30, Some("fmt"), vec![]),
        run(true, 200, None, vec![]),
        run(true, 301, None, vec![]),
    ];
    let s = summarize_runs(&runs);
    assert_eq!(s.count, 4);
    assert_eq!(s.ok_count, 3);
    assert_eq!(s.fail_count, 1);
    assert_eq!(s.avg_tts, 157);
    assert_eq!(s.med_tts, 150);
    assert_eq!(s.avg_ttg, Some(200));
    assert_eq!(s.med_ttg, Some(200));
    assert_eq!(s.failure_stages.len(), 1);
    assert_eq!(s.failure_stages[0].stage, "fmt");

    let none_green = summarize_runs(&[run(false, 10, Some("check"), vec![])]);
    assert_eq!(none_green.avg_ttg, None);
    assert_eq!(none_green.med_ttg, None);
}

#[test]
fn timing_advice_thresholds() {
    let runs = vec![
        run(true, 0, None, vec![step("check", true, 10), step("clippy", true, 25), step("test", true, 31)]),
        run(true, 0, None, vec![step("check", true, 10), step("clippy", true, 25), step("test", true, 31)]),
    ];
    assert_eq!(stage_durations(&runs, "clippy"), vec![25, 25]);
    let a = timing_advice(&runs);
    assert_eq!(a.med_check, 10);
    assert_eq!(a.med_clippy, 25);
    assert_eq!(a.med_test, 31);
    assert!(a.clippy_dominates);
    assert!(a.tests_dominate);

    let calm = vec![run(true, 0, None, vec![step("check", true, 10), step("clippy", true, 20), step("test", true, 30)])];
    let b = timing_advice(&calm);
    assert!(!b.clippy_dominates);
    assert!(!b.tests_dominate);

    let no_check = vec![run(true, 0, None, vec![step("test", true, 4)])];
    let c = timing_advice(&no_check);
    assert_eq!(c.med_check, 0);
    assert!(!c.clippy_dominates);
    assert!(c.tests_dominate);
}

#[test]
fn log_entries_skip_blank_lines() {
    let e = dwf::metrics::log_entries("{\"a\":1}\n  \t\n\n{\"b\":2}\r\n");
    assert_eq!(e, vec!["{\"a\":1}".to_string(), "{\"b\":2}".to_string()]);
    assert!(dwf::metrics::log_entries("").is_empty());
    assert!(dwf::metrics::log_entries("   \n\n").is_empty());
}
