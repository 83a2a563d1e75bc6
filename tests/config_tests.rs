use dwf::config::{
    default_dir, default_history_file, default_stderr_lines, default_true, storage_paths, Config,
    PipelineConfig, StorageConfig,
};
use dwf::templates::{get_template, list_templates};

#[test]
fn rust_default_exists() {
    assert!(get_template("rust-default").is_some());
}

#[test]
fn unknown_template_none() {
    assert!(get_template("nope").is_none());
}

#[test]
fn list_contains_default() {
    let list = list_templates();
    assert!(list.contains(&"rust-default"));
}

#[test]
fn templates_differ_in_switches() {
    let strict = get_template("rust-ci-strict").unwrap();
    assert!(strict.pipeline.all_features_in_full);
    assert!(strict.pipeline.clippy_deny_warnings);
    let fast = get_template("rust-fast-iter").unwrap();
    assert!(!fast.pipeline.all_features_in_full);
    assert!(!fast.pipeline.clippy_deny_warnings);
    assert_eq!(fast.pipeline.stderr_max_lines, 80);
    assert_eq!(list_templates().len(), 3);
}

#[test]
fn defaults() {
    assert!(default_true());
    assert_eq!(default_stderr_lines(), 40);
    assert_eq!(default_dir(), ".dwf");
    assert_eq!(default_history_file(), "history.jsonl");
    let p = PipelineConfig::default();
    assert_eq!(p.stderr_max_lines, 40);
    assert!(p.clippy_deny_warnings);
    let s = StorageConfig::default();
    assert_eq!(s.dir, ".dwf");
    let c = Config::default();
    assert_eq!(c.pipeline.stderr_max_lines, 80);
    assert_eq!(c.storage.history_file, "history.jsonl");
}

#[test]
fn storage_paths_join_dir_and_file() {
    let c = Config::default();
    let (dir, file) = storage_paths(&c);
    assert_eq!(dir, ".dwf");
    assert_eq!(file, format!(".dwf{}history.jsonl", std::path::MAIN_SEPARATOR));
}
