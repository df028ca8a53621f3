//! Observability configuration: tracing and metrics settings with their
//! defaults, and the log-level normalisation rule.

use vstd::prelude::*;
use crate::strutil::str_eq;
use crate::sysutil::os_cache_dir;
use vstd::string::StringExecFns;

verus! {

/// Log output settings.
pub struct TracingConfig {
    pub level: String,
    pub file_logging: bool,
    pub log_dir: String,
    pub max_log_size_mb: u32,
    pub log_files_keep: u32,
    pub console_output: bool,
    pub json_format: bool,
}

/// Metrics export settings.
pub struct MetricsConfig {
    pub enabled: bool,
    pub export_to_file: bool,
    pub export_dir: String,
    pub export_interval_secs: u32,
}

pub fn default_log_level() -> (r: String)
    ensures
        r@ == "info"@,
{
    "info".to_owned()
}

pub fn default_max_log_size() -> (r: u32)
    ensures
        r == 10,
{
    10
}

pub fn default_log_files_keep() -> (r: u32)
    ensures
        r == 5,
{
    5
}

pub fn default_metrics_interval() -> (r: u32)
    ensures
        r == 60,
{
    60
}

/// The platform cache directory plus the given tail, or a local fallback.
fn cache_subdir(tail: &str, fallback: &str) -> (r: String) {
    match os_cache_dir() {
        Some(base) => {
            let mut s = base;
            s.append("/lucastra/");
            s.append(tail);
            s
        },
        None => fallback.to_owned(),
    }
}

pub fn default_log_dir() -> String {
    cache_subdir("logs", "./logs")
}

pub fn default_metrics_dir() -> String {
    cache_subdir("metrics", "./metrics")
}

impl Default for TracingConfig {
    fn default() -> (r: TracingConfig)
        ensures
            r.level@ == "info"@,
            r.file_logging,
            r.max_log_size_mb == 10,
            r.log_files_keep == 5,
            r.console_output,
            !r.json_format,
    {
        TracingConfig {
            level: default_log_level(),
            file_logging: true,
            log_dir: default_log_dir(),
            max_log_size_mb: default_max_log_size(),
            log_files_keep: default_log_files_keep(),
            console_output: true,
            json_format: false,
        }
    }
}

impl Default for MetricsConfig {
    fn default() -> (r: MetricsConfig)
        ensures
            r.enabled,
            !r.export_to_file,
            r.export_interval_secs == 60,
    {
        MetricsConfig {
            enabled: true,
            export_to_file: false,
            export_dir: default_metrics_dir(),
            export_interval_secs: default_metrics_interval(),
        }
    }
}

/// The recognised log levels, each mapped to its canonical upper-case
/// name; anything unrecognised falls back to INFO.
pub open spec fn spec_level_name(level: Seq<char>) -> Seq<char> {
    if level == "trace"@ {
        "TRACE"@
    } else if level == "debug"@ {
        "DEBUG"@
    } else if level == "info"@ {
        "INFO"@
    } else if level == "warn"@ {
        "WARN"@
    } else if level == "error"@ {
        "ERROR"@
    } else {
        "INFO"@
    }
}

/// Normalises a (lower-case) log-level word to its canonical name.
pub fn parse_log_level(level: &str) -> (r: String)
    ensures
        r@ == spec_level_name(level@),
{
    if str_eq(level, "trace") {
        "TRACE".to_owned()
    } else if str_eq(level, "debug") {
        "DEBUG".to_owned()
    } else if str_eq(level, "info") {
        "INFO".to_owned()
    } else if str_eq(level, "warn") {
        "WARN".to_owned()
    } else if str_eq(level, "error") {
        "ERROR".to_owned()
    } else {
        "INFO".to_owned()
    }
}

} // verus!
