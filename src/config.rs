//! Configuration values and their defaults.

use vstd::prelude::*;
use vstd::string::StringExecFns;

verus! {

/// Settings of the stages.
#[derive(Clone, Debug)]
pub struct PipelineConfig {
    /// Add `--all-features` to lint and test in full mode.
    pub all_features_in_full: bool,
    /// Treat lint warnings as errors.
    pub clippy_deny_warnings: bool,
    /// Lines of stderr kept per stage.
    pub stderr_max_lines: usize,
}

/// Where the run log lives.
#[derive(Clone, Debug)]
pub struct StorageConfig {
    /// Directory of the log, relative to the repository.
    pub dir: String,
    /// File name of the log inside `dir`.
    pub history_file: String,
}

/// The whole configuration.
#[derive(Clone, Debug)]
pub struct Config {
    pub pipeline: PipelineConfig,
    pub storage: StorageConfig,
}

/// Whether `c` is the default configuration, whose stderr bound is `max_lines`.
pub open spec fn is_default_with(c: Config, max_lines: nat) -> bool {
    &&& !c.pipeline.all_features_in_full
    &&& c.pipeline.clippy_deny_warnings
    &&& c.pipeline.stderr_max_lines == max_lines
    &&& c.storage.dir@ == ".dwf"@
    &&& c.storage.history_file@ == "history.jsonl"@
}

/// Default of a switch that is on unless turned off.
pub fn default_true() -> (r: bool)
    ensures
        r,
{
    true
}

/// Default stderr bound of a stage.
pub fn default_stderr_lines() -> (r: usize)
    ensures
        r == 40,
{
    40
}

/// Default log directory.
pub fn default_dir() -> (r: String)
    ensures
        r@ == ".dwf"@,
{
    String::from_str(".dwf")
}

/// Default log file name.
pub fn default_history_file() -> (r: String)
    ensures
        r@ == "history.jsonl"@,
{
    String::from_str("history.jsonl")
}

impl Default for PipelineConfig {
    fn default() -> (r: Self)
        ensures
            !r.all_features_in_full,
            r.clippy_deny_warnings,
            r.stderr_max_lines == 40,
    {
        PipelineConfig {
            all_features_in_full: false,
            clippy_deny_warnings: default_true(),
            stderr_max_lines: default_stderr_lines(),
        }
    }
}

impl Default for StorageConfig {
    fn default() -> (r: Self)
        ensures
            r.dir@ == ".dwf"@,
            r.history_file@ == "history.jsonl"@,
    {
        StorageConfig { dir: default_dir(), history_file: default_history_file() }
    }
}

impl Default for Config {
    /// The configuration written by `init`: it keeps 80 lines of stderr.
    fn default() -> (r: Self)
        ensures
            is_default_with(r, 80),
    {
        Config {
            pipeline: PipelineConfig {
                all_features_in_full: false,
                clippy_deny_warnings: true,
                stderr_max_lines: 80,
            },
            storage: StorageConfig {
                dir: String::from_str(".dwf"),
                history_file: String::from_str("history.jsonl"),
            },
        }
    }
}

/// Relies on `std::path::Path::join`: joins `file` onto the directory `dir`
/// in the way of the platform.
#[verifier::external_body]
fn join_path(dir: &str, file: &str) -> (r: String)
{
    std::path::Path::new(dir).join(file).to_string_lossy().into_owned()
}

/// The log directory and the log file path inside it.
pub fn storage_paths(cfg: &Config) -> (r: (String, String))
    ensures
        r.0@ == cfg.storage.dir@,
{
    let dir = String::from_str(cfg.storage.dir.as_str());
    let file = join_path(cfg.storage.dir.as_str(), cfg.storage.history_file.as_str());
    (dir, file)
}

} // verus!
